//! The style derives: `#[derive(Unit)]`, `#[derive(Rect)]`,
//! `#[derive(Size2d)]`, `#[derive(Color)]` and `#[derive(StyleProperty)]`.
//! Each takes a struct, enum or union (a newtype around the style value it
//! wraps) and gives the impls that make it a style: constructors, a getter,
//! `Deref` to the wrapped value, conversions, and `Style`.
//!
//! ```text
//! #[derive(Rect)]
//! pub struct Padding(Rect);
//! ```
use vstd::prelude::*;

use vstd::string::StringExecFns;

use crate::uix::derive::{attrs_end, derived_attr, derived_attr_to_tokens, vis_end, word_at};
use crate::uix::emit::{
    alone, alone_token, append_tokens, empty_group, grp, group_token, ident_of, ident_token, joint,
    push_token, word,
};
use crate::uix::syntax::{UIxError, is_ident_tok};
use crate::uix::token::{
    Delimiter, Spacing, Tok, TokenStream, TokenTree, duplicate_tokens, is_group, punct_at,
    toks_view,
};

verus! {

/// The name of the struct, enum or union that the item `s` declares, past
/// its attributes and visibility; `None` if `s` declares none.
pub open spec fn derive_input_name(s: Seq<Tok>) -> Option<Seq<char>> {
    let v = vis_end(s, attrs_end(s, 0));
    if 0 <= v && v + 1 < s.len() && (s[v] matches Tok::Ident(w) && (w == "struct"@ || w == "enum"@
        || w == "union"@)) && is_ident_tok(s[v + 1]) {
        Some(s[v + 1]->Ident_0)
    } else {
        None
    }
}

/// The name of the struct, enum or union that the item in `ts` declares.
fn scan_derive_input(ts: &TokenStream) -> (r: Option<String>)
    ensures
        match derive_input_name(ts@) {
            Some(name) => r matches Some(w) && w@ == name,
            None => r is None,
        },
{
    let ghost s = ts@;
    let n = ts.len();
    let mut k: usize = 0;
    while k < n && n - k >= 2 && ts.peek_punct(k, '#') && ts.peek_group(k + 1, Delimiter::Bracket)
        invariant
            k <= n,
            n == s.len(),
            s == ts@,
            attrs_end(s, 0) == attrs_end(s, k as int),
        decreases n - k,
    {
        k = k + 2;
    }
    let v: usize = if word_at(ts, k, "pub") {
        if k + 1 < n && ts.peek_group(k + 1, Delimiter::Parenthesis) {
            k + 2
        } else {
            k + 1
        }
    } else {
        k
    };
    proof {
        assert(v as int == vis_end(s, attrs_end(s, 0)));
    }
    let item = word_at(ts, v, "struct") || word_at(ts, v, "enum") || word_at(ts, v, "union");
    if !(v < n && n - v >= 2 && item && ts.peek_ident(v + 1)) {
        return None;
    }
    match ts.peek(v + 1) {
        Some(TokenTree::Ident(w)) => Some(w.clone()),
        _ => None,
    }
}

/// The type `Unit`.
pub open spec fn unit_ty() -> Seq<Tok> {
    seq![word("Unit"@)]
}

/// The type `Unit<f32>`.
pub open spec fn unit_f32_ty() -> Seq<Tok> {
    seq![word("Unit"@), alone('<'), word("f32"@), alone('>')]
}

/// The type named by the single identifier `w`.
pub open spec fn named_ty(w: Seq<char>) -> Seq<Tok> {
    seq![word(w)]
}

/// The token trees of the type named `w`.
fn named_ty_tokens(w: &str) -> (r: Vec<TokenTree>)
    ensures
        toks_view(r@) == named_ty(w@),
{
    let mut v: Vec<TokenTree> = Vec::new();
    proof {
        assert(toks_view(v@) =~= Seq::<Tok>::empty());
    }
    push_token(&mut v, ident_token(w));
    proof {
        assert(toks_view(v@) =~= named_ty(w@));
    }
    v
}

/// The token trees of `Unit<f32>`.
fn unit_f32_tokens() -> (r: Vec<TokenTree>)
    ensures
        toks_view(r@) == unit_f32_ty(),
{
    let mut v: Vec<TokenTree> = Vec::new();
    proof {
        assert(toks_view(v@) =~= Seq::<Tok>::empty());
    }
    push_token(&mut v, ident_token("Unit"));
    push_token(&mut v, alone_token('<'));
    push_token(&mut v, ident_token("f32"));
    push_token(&mut v, alone_token('>'));
    proof {
        assert(toks_view(v@) =~= unit_f32_ty());
    }
    v
}

/// No token trees yet.
fn no_tokens() -> (v: Vec<TokenTree>)
    ensures
        toks_view(v@) == Seq::<Tok>::empty(),
{
    let v: Vec<TokenTree> = Vec::new();
    proof {
        assert(toks_view(v@) =~= Seq::<Tok>::empty());
    }
    v
}

/// `impl Deref for name { type Target = target; .. }`: the type dereferences to its field.
pub open spec fn deref_impl(name: Seq<char>, target: Seq<Tok>) -> Seq<Tok> {
    seq![
        word("impl"@), word("Deref"@), word("for"@), word(name),
        grp(Delimiter::Brace, seq![word("type"@), word("Target"@), alone('=')] + target + seq![
            alone(';'), word("fn"@), word("deref"@),
            grp(Delimiter::Parenthesis, seq![alone('&'), word("self"@)]), joint('-'),
            alone('>'), alone('&'), word("Self"@), joint(':'), alone(':'), word("Target"@),
            grp(Delimiter::Brace, seq![alone('&'), word("self"@), alone('.'), Tok::Literal("0"@)]),
        ]),
    ]
}

/// The token trees of `deref_impl`.
fn deref_impl_to_tokens(name: &String, target: &Vec<TokenTree>) -> (r: Vec<TokenTree>)
    ensures
        toks_view(r@) == deref_impl(name@, toks_view(target@)),
{
    let mut v1 = no_tokens();
    push_token(&mut v1, ident_token("impl"));
    push_token(&mut v1, ident_token("Deref"));
    push_token(&mut v1, ident_token("for"));
    push_token(&mut v1, ident_of(name));
    let mut v2 = no_tokens();
    push_token(&mut v2, ident_token("type"));
    push_token(&mut v2, ident_token("Target"));
    push_token(&mut v2, alone_token('='));
    append_tokens(&mut v2, duplicate_tokens(target));
    push_token(&mut v2, alone_token(';'));
    push_token(&mut v2, ident_token("fn"));
    push_token(&mut v2, ident_token("deref"));
    let mut v3 = no_tokens();
    push_token(&mut v3, alone_token('&'));
    push_token(&mut v3, ident_token("self"));
    proof {
        assert(toks_view(v3@) =~= seq![alone('&'), word("self"@)]);
    }
    push_token(&mut v2, group_token(Delimiter::Parenthesis, v3));
    push_token(&mut v2, TokenTree::Punct('-', Spacing::Joint));
    push_token(&mut v2, alone_token('>'));
    push_token(&mut v2, alone_token('&'));
    push_token(&mut v2, ident_token("Self"));
    push_token(&mut v2, TokenTree::Punct(':', Spacing::Joint));
    push_token(&mut v2, alone_token(':'));
    push_token(&mut v2, ident_token("Target"));
    let mut v4 = no_tokens();
    push_token(&mut v4, alone_token('&'));
    push_token(&mut v4, ident_token("self"));
    push_token(&mut v4, alone_token('.'));
    push_token(&mut v4, TokenTree::Literal(String::from_str("0")));
    proof {
        assert(toks_view(v4@) =~= seq![alone('&'), word("self"@), alone('.'), Tok::Literal("0"@)]);
    }
    push_token(&mut v2, group_token(Delimiter::Brace, v4));
    proof {
        assert(toks_view(v2@) =~= seq![word("type"@), word("Target"@), alone('=')] + toks_view(target@) + seq![
            alone(';'), word("fn"@), word("deref"@),
            grp(Delimiter::Parenthesis, seq![alone('&'), word("self"@)]), joint('-'),
            alone('>'), alone('&'), word("Self"@), joint(':'), alone(':'), word("Target"@),
            grp(Delimiter::Brace, seq![alone('&'), word("self"@), alone('.'), Tok::Literal("0"@)]),
        ]);
    }
    push_token(&mut v1, group_token(Delimiter::Brace, v2));
    proof {
        assert(toks_view(v1@) =~= seq![
            word("impl"@), word("Deref"@), word("for"@), word(name@),
            grp(Delimiter::Brace, seq![word("type"@), word("Target"@), alone('=')] + toks_view(target@) + seq![
                alone(';'), word("fn"@), word("deref"@),
                grp(Delimiter::Parenthesis, seq![alone('&'), word("self"@)]), joint('-'),
                alone('>'), alone('&'), word("Self"@), joint(':'), alone(':'), word("Target"@),
                grp(Delimiter::Brace, seq![alone('&'), word("self"@), alone('.'), Tok::Literal("0"@)]),
            ]),
        ]);
    }
    v1
}

/// `impl Into<target> for name`: the type turns into its field.
pub open spec fn into_field_impl(name: Seq<char>, target: Seq<Tok>) -> Seq<Tok> {
    seq![word("impl"@), word("Into"@), alone('<')] + target + seq![
        alone('>'), word("for"@), word(name),
        grp(Delimiter::Brace, seq![
            word("fn"@), word("into"@), grp(Delimiter::Parenthesis, seq![word("self"@)]),
            joint('-'), alone('>'),
        ] + target + seq![grp(Delimiter::Brace, seq![word("self"@), alone('.'), Tok::Literal("0"@)])]),
    ]
}

/// The token trees of `into_field_impl`.
fn into_field_impl_to_tokens(name: &String, target: &Vec<TokenTree>) -> (r: Vec<TokenTree>)
    ensures
        toks_view(r@) == into_field_impl(name@, toks_view(target@)),
{
    let mut v1 = no_tokens();
    push_token(&mut v1, ident_token("impl"));
    push_token(&mut v1, ident_token("Into"));
    push_token(&mut v1, alone_token('<'));
    append_tokens(&mut v1, duplicate_tokens(target));
    push_token(&mut v1, alone_token('>'));
    push_token(&mut v1, ident_token("for"));
    push_token(&mut v1, ident_of(name));
    let mut v2 = no_tokens();
    push_token(&mut v2, ident_token("fn"));
    push_token(&mut v2, ident_token("into"));
    let mut v3 = no_tokens();
    push_token(&mut v3, ident_token("self"));
    proof {
        assert(toks_view(v3@) =~= seq![word("self"@)]);
    }
    push_token(&mut v2, group_token(Delimiter::Parenthesis, v3));
    push_token(&mut v2, TokenTree::Punct('-', Spacing::Joint));
    push_token(&mut v2, alone_token('>'));
    append_tokens(&mut v2, duplicate_tokens(target));
    let mut v4 = no_tokens();
    push_token(&mut v4, ident_token("self"));
    push_token(&mut v4, alone_token('.'));
    push_token(&mut v4, TokenTree::Literal(String::from_str("0")));
    proof {
        assert(toks_view(v4@) =~= seq![word("self"@), alone('.'), Tok::Literal("0"@)]);
    }
    push_token(&mut v2, group_token(Delimiter::Brace, v4));
    proof {
        assert(toks_view(v2@) =~= seq![
            word("fn"@), word("into"@), grp(Delimiter::Parenthesis, seq![word("self"@)]),
            joint('-'), alone('>'),
        ] + toks_view(target@) + seq![grp(Delimiter::Brace, seq![word("self"@), alone('.'), Tok::Literal("0"@)])]);
    }
    push_token(&mut v1, group_token(Delimiter::Brace, v2));
    proof {
        assert(toks_view(v1@) =~= seq![word("impl"@), word("Into"@), alone('<')] + toks_view(target@) + seq![
            alone('>'), word("for"@), word(name@),
            grp(Delimiter::Brace, seq![
                word("fn"@), word("into"@), grp(Delimiter::Parenthesis, seq![word("self"@)]),
                joint('-'), alone('>'),
            ] + toks_view(target@) + seq![
                grp(Delimiter::Brace, seq![word("self"@), alone('.'), Tok::Literal("0"@)]),
            ]),
        ]);
    }
    v1
}

/// `impl Into<StyleValue> for name`: the type becomes the style value of its name.
pub open spec fn into_style_value_impl(name: Seq<char>) -> Seq<Tok> {
    seq![
        word("impl"@), word("Into"@), alone('<'), word("StyleValue"@), alone('>'), word("for"@),
        word(name),
        grp(Delimiter::Brace, seq![
            word("fn"@), word("into"@), grp(Delimiter::Parenthesis, seq![word("self"@)]),
            joint('-'), alone('>'), word("StyleValue"@),
            grp(Delimiter::Brace, seq![
                word("StyleValue"@), joint(':'), alone(':'), word(name),
                grp(Delimiter::Parenthesis, seq![word("self"@)]),
            ]),
        ]),
    ]
}

/// The token trees of `into_style_value_impl`.
fn into_style_value_impl_to_tokens(name: &String) -> (r: Vec<TokenTree>)
    ensures
        toks_view(r@) == into_style_value_impl(name@),
{
    let mut v1 = no_tokens();
    push_token(&mut v1, ident_token("impl"));
    push_token(&mut v1, ident_token("Into"));
    push_token(&mut v1, alone_token('<'));
    push_token(&mut v1, ident_token("StyleValue"));
    push_token(&mut v1, alone_token('>'));
    push_token(&mut v1, ident_token("for"));
    push_token(&mut v1, ident_of(name));
    let mut v2 = no_tokens();
    push_token(&mut v2, ident_token("fn"));
    push_token(&mut v2, ident_token("into"));
    let mut v3 = no_tokens();
    push_token(&mut v3, ident_token("self"));
    proof {
        assert(toks_view(v3@) =~= seq![word("self"@)]);
    }
    push_token(&mut v2, group_token(Delimiter::Parenthesis, v3));
    push_token(&mut v2, TokenTree::Punct('-', Spacing::Joint));
    push_token(&mut v2, alone_token('>'));
    push_token(&mut v2, ident_token("StyleValue"));
    let mut v4 = no_tokens();
    push_token(&mut v4, ident_token("StyleValue"));
    push_token(&mut v4, TokenTree::Punct(':', Spacing::Joint));
    push_token(&mut v4, alone_token(':'));
    push_token(&mut v4, ident_of(name));
    let mut v5 = no_tokens();
    push_token(&mut v5, ident_token("self"));
    proof {
        assert(toks_view(v5@) =~= seq![word("self"@)]);
    }
    push_token(&mut v4, group_token(Delimiter::Parenthesis, v5));
    proof {
        assert(toks_view(v4@) =~= seq![
            word("StyleValue"@), joint(':'), alone(':'), word(name@),
            grp(Delimiter::Parenthesis, seq![word("self"@)]),
        ]);
    }
    push_token(&mut v2, group_token(Delimiter::Brace, v4));
    proof {
        assert(toks_view(v2@) =~= seq![
            word("fn"@), word("into"@), grp(Delimiter::Parenthesis, seq![word("self"@)]),
            joint('-'), alone('>'), word("StyleValue"@),
            grp(Delimiter::Brace, seq![
                word("StyleValue"@), joint(':'), alone(':'), word(name@),
                grp(Delimiter::Parenthesis, seq![word("self"@)]),
            ]),
        ]);
    }
    push_token(&mut v1, group_token(Delimiter::Brace, v2));
    proof {
        assert(toks_view(v1@) =~= seq![
            word("impl"@), word("Into"@), alone('<'), word("StyleValue"@), alone('>'),
            word("for"@), word(name@),
            grp(Delimiter::Brace, seq![
                word("fn"@), word("into"@), grp(Delimiter::Parenthesis, seq![word("self"@)]),
                joint('-'), alone('>'), word("StyleValue"@),
                grp(Delimiter::Brace, seq![
                    word("StyleValue"@), joint(':'), alone(':'), word(name@),
                    grp(Delimiter::Parenthesis, seq![word("self"@)]),
                ]),
            ]),
        ]);
    }
    v1
}

/// `impl Style for name {}`
pub open spec fn style_impl(name: Seq<char>) -> Seq<Tok> {
    seq![
        word("impl"@), word("Style"@), word("for"@), word(name),
        grp(Delimiter::Brace, Seq::<Tok>::empty()),
    ]
}

/// The token trees of `style_impl`.
fn style_impl_to_tokens(name: &String) -> (r: Vec<TokenTree>)
    ensures
        toks_view(r@) == style_impl(name@),
{
    let mut v1 = no_tokens();
    push_token(&mut v1, ident_token("impl"));
    push_token(&mut v1, ident_token("Style"));
    push_token(&mut v1, ident_token("for"));
    push_token(&mut v1, ident_of(name));
    push_token(&mut v1, empty_group(Delimiter::Brace));
    proof {
        assert(toks_view(v1@) =~= seq![
            word("impl"@), word("Style"@), word("for"@), word(name@),
            grp(Delimiter::Brace, Seq::<Tok>::empty()),
        ]);
    }
    v1
}

/// The constructor and the getter of a unit style.
pub open spec fn unit_methods(name: Seq<char>) -> Seq<Tok> {
    seq![
        word("impl"@), word(name),
        grp(Delimiter::Brace, seq![
            word("pub"@), word("fn"@), word("new"@), alone('<'), word("U"@), alone(':'),
            word("Into"@), alone('<'), word("Unit"@), joint('>'), alone('>'),
            grp(Delimiter::Parenthesis, seq![word("value"@), alone(':'), word("U"@)]),
        ] + seq![
            joint('-'), alone('>'), word("Self"@),
            grp(Delimiter::Brace, seq![
                word("Self"@),
                grp(Delimiter::Parenthesis, seq![
                    word("value"@), alone('.'), word("into"@),
                    grp(Delimiter::Parenthesis, Seq::<Tok>::empty()),
                ]),
            ]),
            word("pub"@), word("fn"@), word("unit"@),
            grp(Delimiter::Parenthesis, seq![alone('&'), word("self"@)]), joint('-'),
            alone('>'), alone('&'), word("Unit"@),
        ] + seq![
            grp(Delimiter::Brace, seq![alone('&'), word("self"@), alone('.'), Tok::Literal("0"@)]),
        ]),
    ]
}

/// The token trees of `unit_methods`.
fn unit_methods_to_tokens(name: &String) -> (r: Vec<TokenTree>)
    ensures
        toks_view(r@) == unit_methods(name@),
{
    let mut v1 = no_tokens();
    push_token(&mut v1, ident_token("impl"));
    push_token(&mut v1, ident_of(name));
    let mut v2 = no_tokens();
    push_token(&mut v2, ident_token("pub"));
    push_token(&mut v2, ident_token("fn"));
    push_token(&mut v2, ident_token("new"));
    push_token(&mut v2, alone_token('<'));
    push_token(&mut v2, ident_token("U"));
    push_token(&mut v2, alone_token(':'));
    push_token(&mut v2, ident_token("Into"));
    push_token(&mut v2, alone_token('<'));
    push_token(&mut v2, ident_token("Unit"));
    push_token(&mut v2, TokenTree::Punct('>', Spacing::Joint));
    push_token(&mut v2, alone_token('>'));
    let mut v3 = no_tokens();
    push_token(&mut v3, ident_token("value"));
    push_token(&mut v3, alone_token(':'));
    push_token(&mut v3, ident_token("U"));
    proof {
        assert(toks_view(v3@) =~= seq![word("value"@), alone(':'), word("U"@)]);
    }
    push_token(&mut v2, group_token(Delimiter::Parenthesis, v3));
    push_token(&mut v2, TokenTree::Punct('-', Spacing::Joint));
    push_token(&mut v2, alone_token('>'));
    push_token(&mut v2, ident_token("Self"));
    let mut v4 = no_tokens();
    push_token(&mut v4, ident_token("Self"));
    let mut v5 = no_tokens();
    push_token(&mut v5, ident_token("value"));
    push_token(&mut v5, alone_token('.'));
    push_token(&mut v5, ident_token("into"));
    push_token(&mut v5, empty_group(Delimiter::Parenthesis));
    proof {
        assert(toks_view(v5@) =~= seq![
            word("value"@), alone('.'), word("into"@),
            grp(Delimiter::Parenthesis, Seq::<Tok>::empty()),
        ]);
    }
    push_token(&mut v4, group_token(Delimiter::Parenthesis, v5));
    proof {
        assert(toks_view(v4@) =~= seq![
            word("Self"@),
            grp(Delimiter::Parenthesis, seq![
                word("value"@), alone('.'), word("into"@),
                grp(Delimiter::Parenthesis, Seq::<Tok>::empty()),
            ]),
        ]);
    }
    push_token(&mut v2, group_token(Delimiter::Brace, v4));
    push_token(&mut v2, ident_token("pub"));
    push_token(&mut v2, ident_token("fn"));
    push_token(&mut v2, ident_token("unit"));
    let mut v6 = no_tokens();
    push_token(&mut v6, alone_token('&'));
    push_token(&mut v6, ident_token("self"));
    proof {
        assert(toks_view(v6@) =~= seq![alone('&'), word("self"@)]);
    }
    push_token(&mut v2, group_token(Delimiter::Parenthesis, v6));
    push_token(&mut v2, TokenTree::Punct('-', Spacing::Joint));
    push_token(&mut v2, alone_token('>'));
    push_token(&mut v2, alone_token('&'));
    push_token(&mut v2, ident_token("Unit"));
    let mut v7 = no_tokens();
    push_token(&mut v7, alone_token('&'));
    push_token(&mut v7, ident_token("self"));
    push_token(&mut v7, alone_token('.'));
    push_token(&mut v7, TokenTree::Literal(String::from_str("0")));
    proof {
        assert(toks_view(v7@) =~= seq![alone('&'), word("self"@), alone('.'), Tok::Literal("0"@)]);
    }
    push_token(&mut v2, group_token(Delimiter::Brace, v7));
    proof {
        assert(toks_view(v2@) =~= seq![
            word("pub"@), word("fn"@), word("new"@), alone('<'), word("U"@), alone(':'),
            word("Into"@), alone('<'), word("Unit"@), joint('>'), alone('>'),
            grp(Delimiter::Parenthesis, seq![word("value"@), alone(':'), word("U"@)]),
        ] + seq![
            joint('-'), alone('>'), word("Self"@),
            grp(Delimiter::Brace, seq![
                word("Self"@),
                grp(Delimiter::Parenthesis, seq![
                    word("value"@), alone('.'), word("into"@),
                    grp(Delimiter::Parenthesis, Seq::<Tok>::empty()),
                ]),
            ]),
            word("pub"@), word("fn"@), word("unit"@),
            grp(Delimiter::Parenthesis, seq![alone('&'), word("self"@)]), joint('-'),
            alone('>'), alone('&'), word("Unit"@),
        ] + seq![
            grp(Delimiter::Brace, seq![alone('&'), word("self"@), alone('.'), Tok::Literal("0"@)]),
        ]);
    }
    push_token(&mut v1, group_token(Delimiter::Brace, v2));
    proof {
        assert(toks_view(v1@) =~= seq![
            word("impl"@), word(name@),
            grp(Delimiter::Brace, seq![
                word("pub"@), word("fn"@), word("new"@), alone('<'), word("U"@), alone(':'),
                word("Into"@), alone('<'), word("Unit"@), joint('>'), alone('>'),
                grp(Delimiter::Parenthesis, seq![word("value"@), alone(':'), word("U"@)]),
            ] + seq![
                joint('-'), alone('>'), word("Self"@),
                grp(Delimiter::Brace, seq![
                    word("Self"@),
                    grp(Delimiter::Parenthesis, seq![
                        word("value"@), alone('.'), word("into"@),
                        grp(Delimiter::Parenthesis, Seq::<Tok>::empty()),
                    ]),
                ]),
                word("pub"@), word("fn"@), word("unit"@),
                grp(Delimiter::Parenthesis, seq![alone('&'), word("self"@)]), joint('-'),
                alone('>'), alone('&'), word("Unit"@),
            ] + seq![
                grp(Delimiter::Brace, seq![alone('&'), word("self"@), alone('.'), Tok::Literal("0"@)]),
            ]),
        ]);
    }
    v1
}

/// `impl From<Unit> for name`
pub open spec fn unit_from_impl(name: Seq<char>) -> Seq<Tok> {
    seq![
        word("impl"@), word("From"@), alone('<'), word("Unit"@), alone('>'), word("for"@),
        word(name),
        grp(Delimiter::Brace, seq![
            word("fn"@), word("from"@),
            grp(Delimiter::Parenthesis, seq![word("unit"@), alone(':'), word("Unit"@)]),
            joint('-'), alone('>'), word("Self"@),
            grp(Delimiter::Brace, seq![word("Self"@), grp(Delimiter::Parenthesis, seq![word("unit"@)])]),
        ]),
    ]
}

/// The token trees of `unit_from_impl`.
fn unit_from_impl_to_tokens(name: &String) -> (r: Vec<TokenTree>)
    ensures
        toks_view(r@) == unit_from_impl(name@),
{
    let mut v1 = no_tokens();
    push_token(&mut v1, ident_token("impl"));
    push_token(&mut v1, ident_token("From"));
    push_token(&mut v1, alone_token('<'));
    push_token(&mut v1, ident_token("Unit"));
    push_token(&mut v1, alone_token('>'));
    push_token(&mut v1, ident_token("for"));
    push_token(&mut v1, ident_of(name));
    let mut v2 = no_tokens();
    push_token(&mut v2, ident_token("fn"));
    push_token(&mut v2, ident_token("from"));
    let mut v3 = no_tokens();
    push_token(&mut v3, ident_token("unit"));
    push_token(&mut v3, alone_token(':'));
    push_token(&mut v3, ident_token("Unit"));
    proof {
        assert(toks_view(v3@) =~= seq![word("unit"@), alone(':'), word("Unit"@)]);
    }
    push_token(&mut v2, group_token(Delimiter::Parenthesis, v3));
    push_token(&mut v2, TokenTree::Punct('-', Spacing::Joint));
    push_token(&mut v2, alone_token('>'));
    push_token(&mut v2, ident_token("Self"));
    let mut v4 = no_tokens();
    push_token(&mut v4, ident_token("Self"));
    let mut v5 = no_tokens();
    push_token(&mut v5, ident_token("unit"));
    proof {
        assert(toks_view(v5@) =~= seq![word("unit"@)]);
    }
    push_token(&mut v4, group_token(Delimiter::Parenthesis, v5));
    proof {
        assert(toks_view(v4@) =~= seq![word("Self"@), grp(Delimiter::Parenthesis, seq![word("unit"@)])]);
    }
    push_token(&mut v2, group_token(Delimiter::Brace, v4));
    proof {
        assert(toks_view(v2@) =~= seq![
            word("fn"@), word("from"@),
            grp(Delimiter::Parenthesis, seq![word("unit"@), alone(':'), word("Unit"@)]),
            joint('-'), alone('>'), word("Self"@),
            grp(Delimiter::Brace, seq![word("Self"@), grp(Delimiter::Parenthesis, seq![word("unit"@)])]),
        ]);
    }
    push_token(&mut v1, group_token(Delimiter::Brace, v2));
    proof {
        assert(toks_view(v1@) =~= seq![
            word("impl"@), word("From"@), alone('<'), word("Unit"@), alone('>'), word("for"@),
            word(name@),
            grp(Delimiter::Brace, seq![
                word("fn"@), word("from"@),
                grp(Delimiter::Parenthesis, seq![word("unit"@), alone(':'), word("Unit"@)]),
                joint('-'), alone('>'), word("Self"@),
                grp(Delimiter::Brace, seq![word("Self"@), grp(Delimiter::Parenthesis, seq![word("unit"@)])]),
            ]),
        ]);
    }
    v1
}

/// `new`: one value for all four sides.
pub open spec fn rect_new_fn(name: Seq<char>) -> Seq<Tok> {
    seq![
        alone('#'),
        grp(Delimiter::Bracket, seq![word("inline"@), grp(Delimiter::Parenthesis, seq![word("always"@)])]),
        word("pub"@), word("fn"@), word("new"@), alone('<'), word("U"@), alone(':'),
        word("Into"@), alone('<'), word("Unit"@), alone('<'),
    ] + seq![
        word("f32"@), joint('>'), joint('>'), alone('>'),
        grp(Delimiter::Parenthesis, seq![word("all"@), alone(':'), word("U"@)]), joint('-'),
        alone('>'), word("Self"@),
        grp(Delimiter::Brace, seq![
            word("let"@), word("all"@), alone('='), word("all"@), alone('.'), word("into"@),
            grp(Delimiter::Parenthesis, Seq::<Tok>::empty()), alone(';'), word(name),
            joint(':'), alone(':'), word("all"@),
        ] + seq![
            grp(Delimiter::Parenthesis, seq![
                word("all"@), alone(','), word("all"@), alone(','), word("all"@), alone(','),
                word("all"@),
            ]),
        ]),
    ]
}

/// The token trees of `rect_new_fn`.
fn rect_new_fn_to_tokens(name: &String) -> (r: Vec<TokenTree>)
    ensures
        toks_view(r@) == rect_new_fn(name@),
{
    let mut v1 = no_tokens();
    push_token(&mut v1, alone_token('#'));
    let mut v2 = no_tokens();
    push_token(&mut v2, ident_token("inline"));
    let mut v3 = no_tokens();
    push_token(&mut v3, ident_token("always"));
    proof {
        assert(toks_view(v3@) =~= seq![word("always"@)]);
    }
    push_token(&mut v2, group_token(Delimiter::Parenthesis, v3));
    proof {
        assert(toks_view(v2@) =~= seq![word("inline"@), grp(Delimiter::Parenthesis, seq![word("always"@)])]);
    }
    push_token(&mut v1, group_token(Delimiter::Bracket, v2));
    push_token(&mut v1, ident_token("pub"));
    push_token(&mut v1, ident_token("fn"));
    push_token(&mut v1, ident_token("new"));
    push_token(&mut v1, alone_token('<'));
    push_token(&mut v1, ident_token("U"));
    push_token(&mut v1, alone_token(':'));
    push_token(&mut v1, ident_token("Into"));
    push_token(&mut v1, alone_token('<'));
    push_token(&mut v1, ident_token("Unit"));
    push_token(&mut v1, alone_token('<'));
    push_token(&mut v1, ident_token("f32"));
    push_token(&mut v1, TokenTree::Punct('>', Spacing::Joint));
    push_token(&mut v1, TokenTree::Punct('>', Spacing::Joint));
    push_token(&mut v1, alone_token('>'));
    let mut v4 = no_tokens();
    push_token(&mut v4, ident_token("all"));
    push_token(&mut v4, alone_token(':'));
    push_token(&mut v4, ident_token("U"));
    proof {
        assert(toks_view(v4@) =~= seq![word("all"@), alone(':'), word("U"@)]);
    }
    push_token(&mut v1, group_token(Delimiter::Parenthesis, v4));
    push_token(&mut v1, TokenTree::Punct('-', Spacing::Joint));
    push_token(&mut v1, alone_token('>'));
    push_token(&mut v1, ident_token("Self"));
    let mut v5 = no_tokens();
    push_token(&mut v5, ident_token("let"));
    push_token(&mut v5, ident_token("all"));
    push_token(&mut v5, alone_token('='));
    push_token(&mut v5, ident_token("all"));
    push_token(&mut v5, alone_token('.'));
    push_token(&mut v5, ident_token("into"));
    push_token(&mut v5, empty_group(Delimiter::Parenthesis));
    push_token(&mut v5, alone_token(';'));
    push_token(&mut v5, ident_of(name));
    push_token(&mut v5, TokenTree::Punct(':', Spacing::Joint));
    push_token(&mut v5, alone_token(':'));
    push_token(&mut v5, ident_token("all"));
    let mut v6 = no_tokens();
    push_token(&mut v6, ident_token("all"));
    push_token(&mut v6, alone_token(','));
    push_token(&mut v6, ident_token("all"));
    push_token(&mut v6, alone_token(','));
    push_token(&mut v6, ident_token("all"));
    push_token(&mut v6, alone_token(','));
    push_token(&mut v6, ident_token("all"));
    proof {
        assert(toks_view(v6@) =~= seq![
            word("all"@), alone(','), word("all"@), alone(','), word("all"@), alone(','),
            word("all"@),
        ]);
    }
    push_token(&mut v5, group_token(Delimiter::Parenthesis, v6));
    proof {
        assert(toks_view(v5@) =~= seq![
            word("let"@), word("all"@), alone('='), word("all"@), alone('.'), word("into"@),
            grp(Delimiter::Parenthesis, Seq::<Tok>::empty()), alone(';'), word(name@),
            joint(':'), alone(':'), word("all"@),
        ] + seq![
            grp(Delimiter::Parenthesis, seq![
                word("all"@), alone(','), word("all"@), alone(','), word("all"@), alone(','),
                word("all"@),
            ]),
        ]);
    }
    push_token(&mut v1, group_token(Delimiter::Brace, v5));
    proof {
        assert(toks_view(v1@) =~= seq![
            alone('#'),
            grp(Delimiter::Bracket, seq![word("inline"@), grp(Delimiter::Parenthesis, seq![word("always"@)])]),
            word("pub"@), word("fn"@), word("new"@), alone('<'), word("U"@), alone(':'),
            word("Into"@), alone('<'), word("Unit"@), alone('<'),
        ] + seq![
            word("f32"@), joint('>'), joint('>'), alone('>'),
            grp(Delimiter::Parenthesis, seq![word("all"@), alone(':'), word("U"@)]), joint('-'),
            alone('>'), word("Self"@),
            grp(Delimiter::Brace, seq![
                word("let"@), word("all"@), alone('='), word("all"@), alone('.'), word("into"@),
                grp(Delimiter::Parenthesis, Seq::<Tok>::empty()), alone(';'), word(name@),
                joint(':'), alone(':'), word("all"@),
            ] + seq![
                grp(Delimiter::Parenthesis, seq![
                    word("all"@), alone(','), word("all"@), alone(','), word("all"@),
                    alone(','), word("all"@),
                ]),
            ]),
        ]);
    }
    v1
}

/// `all`: a value for each side.
pub open spec fn rect_all_fn(name: Seq<char>) -> Seq<Tok> {
    seq![
        alone('#'),
        grp(Delimiter::Bracket, seq![word("inline"@), grp(Delimiter::Parenthesis, seq![word("always"@)])]),
        word("pub"@), word("fn"@), word("all"@), alone('<'), word("U1"@), alone(':'),
        word("Into"@), alone('<'), word("Unit"@), alone('<'),
    ] + seq![
        word("f32"@), joint('>'), joint('>'), alone(','), word("U2"@), alone(':'),
        word("Into"@), alone('<'), word("Unit"@), alone('<'), word("f32"@), joint('>'),
    ] + seq![
        joint('>'), alone(','), word("U3"@), alone(':'), word("Into"@), alone('<'),
        word("Unit"@), alone('<'), word("f32"@), joint('>'), joint('>'), alone(','),
    ] + seq![
        word("U4"@), alone(':'), word("Into"@), alone('<'), word("Unit"@), alone('<'),
        word("f32"@), joint('>'), joint('>'), alone('>'),
        grp(Delimiter::Parenthesis, seq![
            word("top"@), alone(':'), word("U1"@), alone(','), word("right"@), alone(':'),
            word("U2"@), alone(','), word("bottom"@), alone(':'), word("U3"@), alone(','),
        ] + seq![word("left"@), alone(':'), word("U4"@)]),
        joint('-'),
    ] + seq![
        alone('>'), word("Self"@),
        grp(Delimiter::Brace, seq![
            word(name),
            grp(Delimiter::Parenthesis, seq![
                word("Rect"@), joint(':'), alone(':'), word("all"@),
                grp(Delimiter::Parenthesis, seq![
                    word("top"@), alone(','), word("right"@), alone(','), word("bottom"@),
                    alone(','), word("left"@),
                ]),
            ]),
        ]),
    ]
}

/// The token trees of `rect_all_fn`.
fn rect_all_fn_to_tokens(name: &String) -> (r: Vec<TokenTree>)
    ensures
        toks_view(r@) == rect_all_fn(name@),
{
    let mut v1 = no_tokens();
    push_token(&mut v1, alone_token('#'));
    let mut v2 = no_tokens();
    push_token(&mut v2, ident_token("inline"));
    let mut v3 = no_tokens();
    push_token(&mut v3, ident_token("always"));
    proof {
        assert(toks_view(v3@) =~= seq![word("always"@)]);
    }
    push_token(&mut v2, group_token(Delimiter::Parenthesis, v3));
    proof {
        assert(toks_view(v2@) =~= seq![word("inline"@), grp(Delimiter::Parenthesis, seq![word("always"@)])]);
    }
    push_token(&mut v1, group_token(Delimiter::Bracket, v2));
    push_token(&mut v1, ident_token("pub"));
    push_token(&mut v1, ident_token("fn"));
    push_token(&mut v1, ident_token("all"));
    push_token(&mut v1, alone_token('<'));
    push_token(&mut v1, ident_token("U1"));
    push_token(&mut v1, alone_token(':'));
    push_token(&mut v1, ident_token("Into"));
    push_token(&mut v1, alone_token('<'));
    push_token(&mut v1, ident_token("Unit"));
    push_token(&mut v1, alone_token('<'));
    push_token(&mut v1, ident_token("f32"));
    push_token(&mut v1, TokenTree::Punct('>', Spacing::Joint));
    push_token(&mut v1, TokenTree::Punct('>', Spacing::Joint));
    push_token(&mut v1, alone_token(','));
    push_token(&mut v1, ident_token("U2"));
    push_token(&mut v1, alone_token(':'));
    push_token(&mut v1, ident_token("Into"));
    push_token(&mut v1, alone_token('<'));
    push_token(&mut v1, ident_token("Unit"));
    push_token(&mut v1, alone_token('<'));
    push_token(&mut v1, ident_token("f32"));
    push_token(&mut v1, TokenTree::Punct('>', Spacing::Joint));
    push_token(&mut v1, TokenTree::Punct('>', Spacing::Joint));
    push_token(&mut v1, alone_token(','));
    push_token(&mut v1, ident_token("U3"));
    push_token(&mut v1, alone_token(':'));
    push_token(&mut v1, ident_token("Into"));
    push_token(&mut v1, alone_token('<'));
    push_token(&mut v1, ident_token("Unit"));
    push_token(&mut v1, alone_token('<'));
    push_token(&mut v1, ident_token("f32"));
    push_token(&mut v1, TokenTree::Punct('>', Spacing::Joint));
    push_token(&mut v1, TokenTree::Punct('>', Spacing::Joint));
    push_token(&mut v1, alone_token(','));
    push_token(&mut v1, ident_token("U4"));
    push_token(&mut v1, alone_token(':'));
    push_token(&mut v1, ident_token("Into"));
    push_token(&mut v1, alone_token('<'));
    push_token(&mut v1, ident_token("Unit"));
    push_token(&mut v1, alone_token('<'));
    push_token(&mut v1, ident_token("f32"));
    push_token(&mut v1, TokenTree::Punct('>', Spacing::Joint));
    push_token(&mut v1, TokenTree::Punct('>', Spacing::Joint));
    push_token(&mut v1, alone_token('>'));
    let mut v4 = no_tokens();
    push_token(&mut v4, ident_token("top"));
    push_token(&mut v4, alone_token(':'));
    push_token(&mut v4, ident_token("U1"));
    push_token(&mut v4, alone_token(','));
    push_token(&mut v4, ident_token("right"));
    push_token(&mut v4, alone_token(':'));
    push_token(&mut v4, ident_token("U2"));
    push_token(&mut v4, alone_token(','));
    push_token(&mut v4, ident_token("bottom"));
    push_token(&mut v4, alone_token(':'));
    push_token(&mut v4, ident_token("U3"));
    push_token(&mut v4, alone_token(','));
    push_token(&mut v4, ident_token("left"));
    push_token(&mut v4, alone_token(':'));
    push_token(&mut v4, ident_token("U4"));
    proof {
        assert(toks_view(v4@) =~= seq![
            word("top"@), alone(':'), word("U1"@), alone(','), word("right"@), alone(':'),
            word("U2"@), alone(','), word("bottom"@), alone(':'), word("U3"@), alone(','),
        ] + seq![word("left"@), alone(':'), word("U4"@)]);
    }
    push_token(&mut v1, group_token(Delimiter::Parenthesis, v4));
    push_token(&mut v1, TokenTree::Punct('-', Spacing::Joint));
    push_token(&mut v1, alone_token('>'));
    push_token(&mut v1, ident_token("Self"));
    let mut v5 = no_tokens();
    push_token(&mut v5, ident_of(name));
    let mut v6 = no_tokens();
    push_token(&mut v6, ident_token("Rect"));
    push_token(&mut v6, TokenTree::Punct(':', Spacing::Joint));
    push_token(&mut v6, alone_token(':'));
    push_token(&mut v6, ident_token("all"));
    let mut v7 = no_tokens();
    push_token(&mut v7, ident_token("top"));
    push_token(&mut v7, alone_token(','));
    push_token(&mut v7, ident_token("right"));
    push_token(&mut v7, alone_token(','));
    push_token(&mut v7, ident_token("bottom"));
    push_token(&mut v7, alone_token(','));
    push_token(&mut v7, ident_token("left"));
    proof {
        assert(toks_view(v7@) =~= seq![
            word("top"@), alone(','), word("right"@), alone(','), word("bottom"@), alone(','),
            word("left"@),
        ]);
    }
    push_token(&mut v6, group_token(Delimiter::Parenthesis, v7));
    proof {
        assert(toks_view(v6@) =~= seq![
            word("Rect"@), joint(':'), alone(':'), word("all"@),
            grp(Delimiter::Parenthesis, seq![
                word("top"@), alone(','), word("right"@), alone(','), word("bottom"@),
                alone(','), word("left"@),
            ]),
        ]);
    }
    push_token(&mut v5, group_token(Delimiter::Parenthesis, v6));
    proof {
        assert(toks_view(v5@) =~= seq![
            word(name@),
            grp(Delimiter::Parenthesis, seq![
                word("Rect"@), joint(':'), alone(':'), word("all"@),
                grp(Delimiter::Parenthesis, seq![
                    word("top"@), alone(','), word("right"@), alone(','), word("bottom"@),
                    alone(','), word("left"@),
                ]),
            ]),
        ]);
    }
    push_token(&mut v1, group_token(Delimiter::Brace, v5));
    proof {
        assert(toks_view(v1@) =~= seq![
            alone('#'),
            grp(Delimiter::Bracket, seq![word("inline"@), grp(Delimiter::Parenthesis, seq![word("always"@)])]),
            word("pub"@), word("fn"@), word("all"@), alone('<'), word("U1"@), alone(':'),
            word("Into"@), alone('<'), word("Unit"@), alone('<'),
        ] + seq![
            word("f32"@), joint('>'), joint('>'), alone(','), word("U2"@), alone(':'),
            word("Into"@), alone('<'), word("Unit"@), alone('<'), word("f32"@), joint('>'),
        ] + seq![
            joint('>'), alone(','), word("U3"@), alone(':'), word("Into"@), alone('<'),
            word("Unit"@), alone('<'), word("f32"@), joint('>'), joint('>'), alone(','),
        ] + seq![
            word("U4"@), alone(':'), word("Into"@), alone('<'), word("Unit"@), alone('<'),
            word("f32"@), joint('>'), joint('>'), alone('>'),
            grp(Delimiter::Parenthesis, seq![
                word("top"@), alone(':'), word("U1"@), alone(','), word("right"@), alone(':'),
                word("U2"@), alone(','), word("bottom"@), alone(':'), word("U3"@), alone(','),
            ] + seq![word("left"@), alone(':'), word("U4"@)]),
            joint('-'),
        ] + seq![
            alone('>'), word("Self"@),
            grp(Delimiter::Brace, seq![
                word(name@),
                grp(Delimiter::Parenthesis, seq![
                    word("Rect"@), joint(':'), alone(':'), word("all"@),
                    grp(Delimiter::Parenthesis, seq![
                        word("top"@), alone(','), word("right"@), alone(','), word("bottom"@),
                        alone(','), word("left"@),
                    ]),
                ]),
            ]),
        ]);
    }
    v1
}

/// `xy`: one value for left and right, one for top and bottom.
pub open spec fn rect_xy_fn(name: Seq<char>) -> Seq<Tok> {
    seq![
        alone('#'),
        grp(Delimiter::Bracket, seq![word("inline"@), grp(Delimiter::Parenthesis, seq![word("always"@)])]),
        word("pub"@), word("fn"@), word("xy"@), alone('<'), word("U1"@), alone(':'),
        word("Into"@), alone('<'), word("Unit"@), alone('<'),
    ] + seq![
        word("f32"@), joint('>'), alone('>'), alone('+'), word("Copy"@), alone(','),
        word("U2"@), alone(':'), word("Into"@), alone('<'), word("Unit"@), alone('<'),
    ] + seq![
        word("f32"@), joint('>'), alone('>'), alone('+'), word("Copy"@), alone('>'),
        grp(Delimiter::Parenthesis, seq![
            word("x"@), alone(':'), word("U1"@), alone(','), word("y"@), alone(':'),
            word("U2"@),
        ]),
        joint('-'), alone('>'), word("Self"@),
        grp(Delimiter::Brace, seq![
            word(name),
            grp(Delimiter::Parenthesis, seq![
                word("Rect"@), joint(':'), alone(':'), word("all"@),
                grp(Delimiter::Parenthesis, seq![
                    word("y"@), alone(','), word("x"@), alone(','), word("y"@), alone(','),
                    word("x"@),
                ]),
            ]),
        ]),
    ]
}

/// The token trees of `rect_xy_fn`.
fn rect_xy_fn_to_tokens(name: &String) -> (r: Vec<TokenTree>)
    ensures
        toks_view(r@) == rect_xy_fn(name@),
{
    let mut v1 = no_tokens();
    push_token(&mut v1, alone_token('#'));
    let mut v2 = no_tokens();
    push_token(&mut v2, ident_token("inline"));
    let mut v3 = no_tokens();
    push_token(&mut v3, ident_token("always"));
    proof {
        assert(toks_view(v3@) =~= seq![word("always"@)]);
    }
    push_token(&mut v2, group_token(Delimiter::Parenthesis, v3));
    proof {
        assert(toks_view(v2@) =~= seq![word("inline"@), grp(Delimiter::Parenthesis, seq![word("always"@)])]);
    }
    push_token(&mut v1, group_token(Delimiter::Bracket, v2));
    push_token(&mut v1, ident_token("pub"));
    push_token(&mut v1, ident_token("fn"));
    push_token(&mut v1, ident_token("xy"));
    push_token(&mut v1, alone_token('<'));
    push_token(&mut v1, ident_token("U1"));
    push_token(&mut v1, alone_token(':'));
    push_token(&mut v1, ident_token("Into"));
    push_token(&mut v1, alone_token('<'));
    push_token(&mut v1, ident_token("Unit"));
    push_token(&mut v1, alone_token('<'));
    push_token(&mut v1, ident_token("f32"));
    push_token(&mut v1, TokenTree::Punct('>', Spacing::Joint));
    push_token(&mut v1, alone_token('>'));
    push_token(&mut v1, alone_token('+'));
    push_token(&mut v1, ident_token("Copy"));
    push_token(&mut v1, alone_token(','));
    push_token(&mut v1, ident_token("U2"));
    push_token(&mut v1, alone_token(':'));
    push_token(&mut v1, ident_token("Into"));
    push_token(&mut v1, alone_token('<'));
    push_token(&mut v1, ident_token("Unit"));
    push_token(&mut v1, alone_token('<'));
    push_token(&mut v1, ident_token("f32"));
    push_token(&mut v1, TokenTree::Punct('>', Spacing::Joint));
    push_token(&mut v1, alone_token('>'));
    push_token(&mut v1, alone_token('+'));
    push_token(&mut v1, ident_token("Copy"));
    push_token(&mut v1, alone_token('>'));
    let mut v4 = no_tokens();
    push_token(&mut v4, ident_token("x"));
    push_token(&mut v4, alone_token(':'));
    push_token(&mut v4, ident_token("U1"));
    push_token(&mut v4, alone_token(','));
    push_token(&mut v4, ident_token("y"));
    push_token(&mut v4, alone_token(':'));
    push_token(&mut v4, ident_token("U2"));
    proof {
        assert(toks_view(v4@) =~= seq![
            word("x"@), alone(':'), word("U1"@), alone(','), word("y"@), alone(':'),
            word("U2"@),
        ]);
    }
    push_token(&mut v1, group_token(Delimiter::Parenthesis, v4));
    push_token(&mut v1, TokenTree::Punct('-', Spacing::Joint));
    push_token(&mut v1, alone_token('>'));
    push_token(&mut v1, ident_token("Self"));
    let mut v5 = no_tokens();
    push_token(&mut v5, ident_of(name));
    let mut v6 = no_tokens();
    push_token(&mut v6, ident_token("Rect"));
    push_token(&mut v6, TokenTree::Punct(':', Spacing::Joint));
    push_token(&mut v6, alone_token(':'));
    push_token(&mut v6, ident_token("all"));
    let mut v7 = no_tokens();
    push_token(&mut v7, ident_token("y"));
    push_token(&mut v7, alone_token(','));
    push_token(&mut v7, ident_token("x"));
    push_token(&mut v7, alone_token(','));
    push_token(&mut v7, ident_token("y"));
    push_token(&mut v7, alone_token(','));
    push_token(&mut v7, ident_token("x"));
    proof {
        assert(toks_view(v7@) =~= seq![
            word("y"@), alone(','), word("x"@), alone(','), word("y"@), alone(','), word("x"@),
        ]);
    }
    push_token(&mut v6, group_token(Delimiter::Parenthesis, v7));
    proof {
        assert(toks_view(v6@) =~= seq![
            word("Rect"@), joint(':'), alone(':'), word("all"@),
            grp(Delimiter::Parenthesis, seq![
                word("y"@), alone(','), word("x"@), alone(','), word("y"@), alone(','),
                word("x"@),
            ]),
        ]);
    }
    push_token(&mut v5, group_token(Delimiter::Parenthesis, v6));
    proof {
        assert(toks_view(v5@) =~= seq![
            word(name@),
            grp(Delimiter::Parenthesis, seq![
                word("Rect"@), joint(':'), alone(':'), word("all"@),
                grp(Delimiter::Parenthesis, seq![
                    word("y"@), alone(','), word("x"@), alone(','), word("y"@), alone(','),
                    word("x"@),
                ]),
            ]),
        ]);
    }
    push_token(&mut v1, group_token(Delimiter::Brace, v5));
    proof {
        assert(toks_view(v1@) =~= seq![
            alone('#'),
            grp(Delimiter::Bracket, seq![word("inline"@), grp(Delimiter::Parenthesis, seq![word("always"@)])]),
            word("pub"@), word("fn"@), word("xy"@), alone('<'), word("U1"@), alone(':'),
            word("Into"@), alone('<'), word("Unit"@), alone('<'),
        ] + seq![
            word("f32"@), joint('>'), alone('>'), alone('+'), word("Copy"@), alone(','),
            word("U2"@), alone(':'), word("Into"@), alone('<'), word("Unit"@), alone('<'),
        ] + seq![
            word("f32"@), joint('>'), alone('>'), alone('+'), word("Copy"@), alone('>'),
            grp(Delimiter::Parenthesis, seq![
                word("x"@), alone(':'), word("U1"@), alone(','), word("y"@), alone(':'),
                word("U2"@),
            ]),
            joint('-'), alone('>'), word("Self"@),
            grp(Delimiter::Brace, seq![
                word(name@),
                grp(Delimiter::Parenthesis, seq![
                    word("Rect"@), joint(':'), alone(':'), word("all"@),
                    grp(Delimiter::Parenthesis, seq![
                        word("y"@), alone(','), word("x"@), alone(','), word("y"@), alone(','),
                        word("x"@),
                    ]),
                ]),
            ]),
        ]);
    }
    v1
}

/// The getter of a rect style.
pub open spec fn rect_getter(name: Seq<char>) -> Seq<Tok> {
    seq![
        word("impl"@), word(name),
        grp(Delimiter::Brace, seq![
            alone('#'),
            grp(Delimiter::Bracket, seq![word("inline"@), grp(Delimiter::Parenthesis, seq![word("always"@)])]),
            word("pub"@), word("fn"@), word("rect"@), alone('<'), joint('\''), word("rect"@),
            alone('>'),
            grp(Delimiter::Parenthesis, seq![alone('&'), joint('\''), word("rect"@), word("self"@)]),
            joint('-'), alone('>'),
        ] + seq![
            alone('&'), joint('\''), word("rect"@), word("Rect"@),
            grp(Delimiter::Brace, seq![alone('&'), word("self"@), alone('.'), Tok::Literal("0"@)]),
        ]),
    ]
}

/// The token trees of `rect_getter`.
fn rect_getter_to_tokens(name: &String) -> (r: Vec<TokenTree>)
    ensures
        toks_view(r@) == rect_getter(name@),
{
    let mut v1 = no_tokens();
    push_token(&mut v1, ident_token("impl"));
    push_token(&mut v1, ident_of(name));
    let mut v2 = no_tokens();
    push_token(&mut v2, alone_token('#'));
    let mut v3 = no_tokens();
    push_token(&mut v3, ident_token("inline"));
    let mut v4 = no_tokens();
    push_token(&mut v4, ident_token("always"));
    proof {
        assert(toks_view(v4@) =~= seq![word("always"@)]);
    }
    push_token(&mut v3, group_token(Delimiter::Parenthesis, v4));
    proof {
        assert(toks_view(v3@) =~= seq![word("inline"@), grp(Delimiter::Parenthesis, seq![word("always"@)])]);
    }
    push_token(&mut v2, group_token(Delimiter::Bracket, v3));
    push_token(&mut v2, ident_token("pub"));
    push_token(&mut v2, ident_token("fn"));
    push_token(&mut v2, ident_token("rect"));
    push_token(&mut v2, alone_token('<'));
    push_token(&mut v2, TokenTree::Punct('\'', Spacing::Joint));
    push_token(&mut v2, ident_token("rect"));
    push_token(&mut v2, alone_token('>'));
    let mut v5 = no_tokens();
    push_token(&mut v5, alone_token('&'));
    push_token(&mut v5, TokenTree::Punct('\'', Spacing::Joint));
    push_token(&mut v5, ident_token("rect"));
    push_token(&mut v5, ident_token("self"));
    proof {
        assert(toks_view(v5@) =~= seq![alone('&'), joint('\''), word("rect"@), word("self"@)]);
    }
    push_token(&mut v2, group_token(Delimiter::Parenthesis, v5));
    push_token(&mut v2, TokenTree::Punct('-', Spacing::Joint));
    push_token(&mut v2, alone_token('>'));
    push_token(&mut v2, alone_token('&'));
    push_token(&mut v2, TokenTree::Punct('\'', Spacing::Joint));
    push_token(&mut v2, ident_token("rect"));
    push_token(&mut v2, ident_token("Rect"));
    let mut v6 = no_tokens();
    push_token(&mut v6, alone_token('&'));
    push_token(&mut v6, ident_token("self"));
    push_token(&mut v6, alone_token('.'));
    push_token(&mut v6, TokenTree::Literal(String::from_str("0")));
    proof {
        assert(toks_view(v6@) =~= seq![alone('&'), word("self"@), alone('.'), Tok::Literal("0"@)]);
    }
    push_token(&mut v2, group_token(Delimiter::Brace, v6));
    proof {
        assert(toks_view(v2@) =~= seq![
            alone('#'),
            grp(Delimiter::Bracket, seq![word("inline"@), grp(Delimiter::Parenthesis, seq![word("always"@)])]),
            word("pub"@), word("fn"@), word("rect"@), alone('<'), joint('\''), word("rect"@),
            alone('>'),
            grp(Delimiter::Parenthesis, seq![alone('&'), joint('\''), word("rect"@), word("self"@)]),
            joint('-'), alone('>'),
        ] + seq![
            alone('&'), joint('\''), word("rect"@), word("Rect"@),
            grp(Delimiter::Brace, seq![alone('&'), word("self"@), alone('.'), Tok::Literal("0"@)]),
        ]);
    }
    push_token(&mut v1, group_token(Delimiter::Brace, v2));
    proof {
        assert(toks_view(v1@) =~= seq![
            word("impl"@), word(name@),
            grp(Delimiter::Brace, seq![
                alone('#'),
                grp(Delimiter::Bracket, seq![word("inline"@), grp(Delimiter::Parenthesis, seq![word("always"@)])]),
                word("pub"@), word("fn"@), word("rect"@), alone('<'), joint('\''),
                word("rect"@), alone('>'),
                grp(Delimiter::Parenthesis, seq![alone('&'), joint('\''), word("rect"@), word("self"@)]),
                joint('-'), alone('>'),
            ] + seq![
                alone('&'), joint('\''), word("rect"@), word("Rect"@),
                grp(Delimiter::Brace, seq![alone('&'), word("self"@), alone('.'), Tok::Literal("0"@)]),
            ]),
        ]);
    }
    v1
}

/// `new`: the size from `x` and `y`.
pub open spec fn size2d_new_fn(name: Seq<char>) -> Seq<Tok> {
    seq![
        alone('#'),
        grp(Delimiter::Bracket, seq![word("inline"@), grp(Delimiter::Parenthesis, seq![word("always"@)])]),
        word("pub"@), word("fn"@), word("new"@), alone('<'), word("U1"@), alone(':'),
        word("Into"@), alone('<'), word("Unit"@), alone('<'),
    ] + seq![
        word("f32"@), joint('>'), joint('>'), alone(','), word("U2"@), alone(':'),
        word("Into"@), alone('<'), word("Unit"@), alone('<'), word("f32"@), joint('>'),
    ] + seq![
        joint('>'), alone('>'),
        grp(Delimiter::Parenthesis, seq![
            word("x"@), alone(':'), word("U1"@), alone(','), word("y"@), alone(':'),
            word("U2"@),
        ]),
        joint('-'), alone('>'), word("Self"@),
        grp(Delimiter::Brace, seq![
            word(name), joint(':'), alone(':'), word("xy"@),
            grp(Delimiter::Parenthesis, seq![word("x"@), alone(','), word("y"@)]),
        ]),
    ]
}

/// The token trees of `size2d_new_fn`.
fn size2d_new_fn_to_tokens(name: &String) -> (r: Vec<TokenTree>)
    ensures
        toks_view(r@) == size2d_new_fn(name@),
{
    let mut v1 = no_tokens();
    push_token(&mut v1, alone_token('#'));
    let mut v2 = no_tokens();
    push_token(&mut v2, ident_token("inline"));
    let mut v3 = no_tokens();
    push_token(&mut v3, ident_token("always"));
    proof {
        assert(toks_view(v3@) =~= seq![word("always"@)]);
    }
    push_token(&mut v2, group_token(Delimiter::Parenthesis, v3));
    proof {
        assert(toks_view(v2@) =~= seq![word("inline"@), grp(Delimiter::Parenthesis, seq![word("always"@)])]);
    }
    push_token(&mut v1, group_token(Delimiter::Bracket, v2));
    push_token(&mut v1, ident_token("pub"));
    push_token(&mut v1, ident_token("fn"));
    push_token(&mut v1, ident_token("new"));
    push_token(&mut v1, alone_token('<'));
    push_token(&mut v1, ident_token("U1"));
    push_token(&mut v1, alone_token(':'));
    push_token(&mut v1, ident_token("Into"));
    push_token(&mut v1, alone_token('<'));
    push_token(&mut v1, ident_token("Unit"));
    push_token(&mut v1, alone_token('<'));
    push_token(&mut v1, ident_token("f32"));
    push_token(&mut v1, TokenTree::Punct('>', Spacing::Joint));
    push_token(&mut v1, TokenTree::Punct('>', Spacing::Joint));
    push_token(&mut v1, alone_token(','));
    push_token(&mut v1, ident_token("U2"));
    push_token(&mut v1, alone_token(':'));
    push_token(&mut v1, ident_token("Into"));
    push_token(&mut v1, alone_token('<'));
    push_token(&mut v1, ident_token("Unit"));
    push_token(&mut v1, alone_token('<'));
    push_token(&mut v1, ident_token("f32"));
    push_token(&mut v1, TokenTree::Punct('>', Spacing::Joint));
    push_token(&mut v1, TokenTree::Punct('>', Spacing::Joint));
    push_token(&mut v1, alone_token('>'));
    let mut v4 = no_tokens();
    push_token(&mut v4, ident_token("x"));
    push_token(&mut v4, alone_token(':'));
    push_token(&mut v4, ident_token("U1"));
    push_token(&mut v4, alone_token(','));
    push_token(&mut v4, ident_token("y"));
    push_token(&mut v4, alone_token(':'));
    push_token(&mut v4, ident_token("U2"));
    proof {
        assert(toks_view(v4@) =~= seq![
            word("x"@), alone(':'), word("U1"@), alone(','), word("y"@), alone(':'),
            word("U2"@),
        ]);
    }
    push_token(&mut v1, group_token(Delimiter::Parenthesis, v4));
    push_token(&mut v1, TokenTree::Punct('-', Spacing::Joint));
    push_token(&mut v1, alone_token('>'));
    push_token(&mut v1, ident_token("Self"));
    let mut v5 = no_tokens();
    push_token(&mut v5, ident_of(name));
    push_token(&mut v5, TokenTree::Punct(':', Spacing::Joint));
    push_token(&mut v5, alone_token(':'));
    push_token(&mut v5, ident_token("xy"));
    let mut v6 = no_tokens();
    push_token(&mut v6, ident_token("x"));
    push_token(&mut v6, alone_token(','));
    push_token(&mut v6, ident_token("y"));
    proof {
        assert(toks_view(v6@) =~= seq![word("x"@), alone(','), word("y"@)]);
    }
    push_token(&mut v5, group_token(Delimiter::Parenthesis, v6));
    proof {
        assert(toks_view(v5@) =~= seq![
            word(name@), joint(':'), alone(':'), word("xy"@),
            grp(Delimiter::Parenthesis, seq![word("x"@), alone(','), word("y"@)]),
        ]);
    }
    push_token(&mut v1, group_token(Delimiter::Brace, v5));
    proof {
        assert(toks_view(v1@) =~= seq![
            alone('#'),
            grp(Delimiter::Bracket, seq![word("inline"@), grp(Delimiter::Parenthesis, seq![word("always"@)])]),
            word("pub"@), word("fn"@), word("new"@), alone('<'), word("U1"@), alone(':'),
            word("Into"@), alone('<'), word("Unit"@), alone('<'),
        ] + seq![
            word("f32"@), joint('>'), joint('>'), alone(','), word("U2"@), alone(':'),
            word("Into"@), alone('<'), word("Unit"@), alone('<'), word("f32"@), joint('>'),
        ] + seq![
            joint('>'), alone('>'),
            grp(Delimiter::Parenthesis, seq![
                word("x"@), alone(':'), word("U1"@), alone(','), word("y"@), alone(':'),
                word("U2"@),
            ]),
            joint('-'), alone('>'), word("Self"@),
            grp(Delimiter::Brace, seq![
                word(name@), joint(':'), alone(':'), word("xy"@),
                grp(Delimiter::Parenthesis, seq![word("x"@), alone(','), word("y"@)]),
            ]),
        ]);
    }
    v1
}

/// `both`: the size from `x` and `y`.
pub open spec fn size2d_both_fn(name: Seq<char>) -> Seq<Tok> {
    seq![
        alone('#'),
        grp(Delimiter::Bracket, seq![word("inline"@), grp(Delimiter::Parenthesis, seq![word("always"@)])]),
        word("pub"@), word("fn"@), word("both"@), alone('<'), word("U1"@), alone(':'),
        word("Into"@), alone('<'), word("Unit"@), alone('<'),
    ] + seq![
        word("f32"@), joint('>'), joint('>'), alone(','), word("U2"@), alone(':'),
        word("Into"@), alone('<'), word("Unit"@), alone('<'), word("f32"@), joint('>'),
    ] + seq![
        joint('>'), alone('>'),
        grp(Delimiter::Parenthesis, seq![
            word("x"@), alone(':'), word("U1"@), alone(','), word("y"@), alone(':'),
            word("U2"@),
        ]),
        joint('-'), alone('>'), word("Self"@),
        grp(Delimiter::Brace, seq![
            word(name), joint(':'), alone(':'), word("xy"@),
            grp(Delimiter::Parenthesis, seq![word("x"@), alone(','), word("y"@)]),
        ]),
    ]
}

/// The token trees of `size2d_both_fn`.
fn size2d_both_fn_to_tokens(name: &String) -> (r: Vec<TokenTree>)
    ensures
        toks_view(r@) == size2d_both_fn(name@),
{
    let mut v1 = no_tokens();
    push_token(&mut v1, alone_token('#'));
    let mut v2 = no_tokens();
    push_token(&mut v2, ident_token("inline"));
    let mut v3 = no_tokens();
    push_token(&mut v3, ident_token("always"));
    proof {
        assert(toks_view(v3@) =~= seq![word("always"@)]);
    }
    push_token(&mut v2, group_token(Delimiter::Parenthesis, v3));
    proof {
        assert(toks_view(v2@) =~= seq![word("inline"@), grp(Delimiter::Parenthesis, seq![word("always"@)])]);
    }
    push_token(&mut v1, group_token(Delimiter::Bracket, v2));
    push_token(&mut v1, ident_token("pub"));
    push_token(&mut v1, ident_token("fn"));
    push_token(&mut v1, ident_token("both"));
    push_token(&mut v1, alone_token('<'));
    push_token(&mut v1, ident_token("U1"));
    push_token(&mut v1, alone_token(':'));
    push_token(&mut v1, ident_token("Into"));
    push_token(&mut v1, alone_token('<'));
    push_token(&mut v1, ident_token("Unit"));
    push_token(&mut v1, alone_token('<'));
    push_token(&mut v1, ident_token("f32"));
    push_token(&mut v1, TokenTree::Punct('>', Spacing::Joint));
    push_token(&mut v1, TokenTree::Punct('>', Spacing::Joint));
    push_token(&mut v1, alone_token(','));
    push_token(&mut v1, ident_token("U2"));
    push_token(&mut v1, alone_token(':'));
    push_token(&mut v1, ident_token("Into"));
    push_token(&mut v1, alone_token('<'));
    push_token(&mut v1, ident_token("Unit"));
    push_token(&mut v1, alone_token('<'));
    push_token(&mut v1, ident_token("f32"));
    push_token(&mut v1, TokenTree::Punct('>', Spacing::Joint));
    push_token(&mut v1, TokenTree::Punct('>', Spacing::Joint));
    push_token(&mut v1, alone_token('>'));
    let mut v4 = no_tokens();
    push_token(&mut v4, ident_token("x"));
    push_token(&mut v4, alone_token(':'));
    push_token(&mut v4, ident_token("U1"));
    push_token(&mut v4, alone_token(','));
    push_token(&mut v4, ident_token("y"));
    push_token(&mut v4, alone_token(':'));
    push_token(&mut v4, ident_token("U2"));
    proof {
        assert(toks_view(v4@) =~= seq![
            word("x"@), alone(':'), word("U1"@), alone(','), word("y"@), alone(':'),
            word("U2"@),
        ]);
    }
    push_token(&mut v1, group_token(Delimiter::Parenthesis, v4));
    push_token(&mut v1, TokenTree::Punct('-', Spacing::Joint));
    push_token(&mut v1, alone_token('>'));
    push_token(&mut v1, ident_token("Self"));
    let mut v5 = no_tokens();
    push_token(&mut v5, ident_of(name));
    push_token(&mut v5, TokenTree::Punct(':', Spacing::Joint));
    push_token(&mut v5, alone_token(':'));
    push_token(&mut v5, ident_token("xy"));
    let mut v6 = no_tokens();
    push_token(&mut v6, ident_token("x"));
    push_token(&mut v6, alone_token(','));
    push_token(&mut v6, ident_token("y"));
    proof {
        assert(toks_view(v6@) =~= seq![word("x"@), alone(','), word("y"@)]);
    }
    push_token(&mut v5, group_token(Delimiter::Parenthesis, v6));
    proof {
        assert(toks_view(v5@) =~= seq![
            word(name@), joint(':'), alone(':'), word("xy"@),
            grp(Delimiter::Parenthesis, seq![word("x"@), alone(','), word("y"@)]),
        ]);
    }
    push_token(&mut v1, group_token(Delimiter::Brace, v5));
    proof {
        assert(toks_view(v1@) =~= seq![
            alone('#'),
            grp(Delimiter::Bracket, seq![word("inline"@), grp(Delimiter::Parenthesis, seq![word("always"@)])]),
            word("pub"@), word("fn"@), word("both"@), alone('<'), word("U1"@), alone(':'),
            word("Into"@), alone('<'), word("Unit"@), alone('<'),
        ] + seq![
            word("f32"@), joint('>'), joint('>'), alone(','), word("U2"@), alone(':'),
            word("Into"@), alone('<'), word("Unit"@), alone('<'), word("f32"@), joint('>'),
        ] + seq![
            joint('>'), alone('>'),
            grp(Delimiter::Parenthesis, seq![
                word("x"@), alone(':'), word("U1"@), alone(','), word("y"@), alone(':'),
                word("U2"@),
            ]),
            joint('-'), alone('>'), word("Self"@),
            grp(Delimiter::Brace, seq![
                word(name@), joint(':'), alone(':'), word("xy"@),
                grp(Delimiter::Parenthesis, seq![word("x"@), alone(','), word("y"@)]),
            ]),
        ]);
    }
    v1
}

/// `xy`: the size from `x` and `y`.
pub open spec fn size2d_xy_fn(name: Seq<char>) -> Seq<Tok> {
    seq![
        alone('#'),
        grp(Delimiter::Bracket, seq![word("inline"@), grp(Delimiter::Parenthesis, seq![word("always"@)])]),
        word("pub"@), word("fn"@), word("xy"@), alone('<'), word("U1"@), alone(':'),
        word("Into"@), alone('<'), word("Unit"@), alone('<'),
    ] + seq![
        word("f32"@), joint('>'), joint('>'), alone(','), word("U2"@), alone(':'),
        word("Into"@), alone('<'), word("Unit"@), alone('<'), word("f32"@), joint('>'),
    ] + seq![
        joint('>'), alone('>'),
        grp(Delimiter::Parenthesis, seq![
            word("x"@), alone(':'), word("U1"@), alone(','), word("y"@), alone(':'),
            word("U2"@),
        ]),
        joint('-'), alone('>'), word("Self"@),
        grp(Delimiter::Brace, seq![
            word(name),
            grp(Delimiter::Parenthesis, seq![
                word("Size2d"@),
                grp(Delimiter::Parenthesis, seq![
                    word("x"@), alone('.'), word("into"@),
                    grp(Delimiter::Parenthesis, Seq::<Tok>::empty()), alone(','), word("y"@),
                    alone('.'), word("into"@), grp(Delimiter::Parenthesis, Seq::<Tok>::empty()),
                ]),
            ]),
        ]),
    ]
}

/// The token trees of `size2d_xy_fn`.
fn size2d_xy_fn_to_tokens(name: &String) -> (r: Vec<TokenTree>)
    ensures
        toks_view(r@) == size2d_xy_fn(name@),
{
    let mut v1 = no_tokens();
    push_token(&mut v1, alone_token('#'));
    let mut v2 = no_tokens();
    push_token(&mut v2, ident_token("inline"));
    let mut v3 = no_tokens();
    push_token(&mut v3, ident_token("always"));
    proof {
        assert(toks_view(v3@) =~= seq![word("always"@)]);
    }
    push_token(&mut v2, group_token(Delimiter::Parenthesis, v3));
    proof {
        assert(toks_view(v2@) =~= seq![word("inline"@), grp(Delimiter::Parenthesis, seq![word("always"@)])]);
    }
    push_token(&mut v1, group_token(Delimiter::Bracket, v2));
    push_token(&mut v1, ident_token("pub"));
    push_token(&mut v1, ident_token("fn"));
    push_token(&mut v1, ident_token("xy"));
    push_token(&mut v1, alone_token('<'));
    push_token(&mut v1, ident_token("U1"));
    push_token(&mut v1, alone_token(':'));
    push_token(&mut v1, ident_token("Into"));
    push_token(&mut v1, alone_token('<'));
    push_token(&mut v1, ident_token("Unit"));
    push_token(&mut v1, alone_token('<'));
    push_token(&mut v1, ident_token("f32"));
    push_token(&mut v1, TokenTree::Punct('>', Spacing::Joint));
    push_token(&mut v1, TokenTree::Punct('>', Spacing::Joint));
    push_token(&mut v1, alone_token(','));
    push_token(&mut v1, ident_token("U2"));
    push_token(&mut v1, alone_token(':'));
    push_token(&mut v1, ident_token("Into"));
    push_token(&mut v1, alone_token('<'));
    push_token(&mut v1, ident_token("Unit"));
    push_token(&mut v1, alone_token('<'));
    push_token(&mut v1, ident_token("f32"));
    push_token(&mut v1, TokenTree::Punct('>', Spacing::Joint));
    push_token(&mut v1, TokenTree::Punct('>', Spacing::Joint));
    push_token(&mut v1, alone_token('>'));
    let mut v4 = no_tokens();
    push_token(&mut v4, ident_token("x"));
    push_token(&mut v4, alone_token(':'));
    push_token(&mut v4, ident_token("U1"));
    push_token(&mut v4, alone_token(','));
    push_token(&mut v4, ident_token("y"));
    push_token(&mut v4, alone_token(':'));
    push_token(&mut v4, ident_token("U2"));
    proof {
        assert(toks_view(v4@) =~= seq![
            word("x"@), alone(':'), word("U1"@), alone(','), word("y"@), alone(':'),
            word("U2"@),
        ]);
    }
    push_token(&mut v1, group_token(Delimiter::Parenthesis, v4));
    push_token(&mut v1, TokenTree::Punct('-', Spacing::Joint));
    push_token(&mut v1, alone_token('>'));
    push_token(&mut v1, ident_token("Self"));
    let mut v5 = no_tokens();
    push_token(&mut v5, ident_of(name));
    let mut v6 = no_tokens();
    push_token(&mut v6, ident_token("Size2d"));
    let mut v7 = no_tokens();
    push_token(&mut v7, ident_token("x"));
    push_token(&mut v7, alone_token('.'));
    push_token(&mut v7, ident_token("into"));
    push_token(&mut v7, empty_group(Delimiter::Parenthesis));
    push_token(&mut v7, alone_token(','));
    push_token(&mut v7, ident_token("y"));
    push_token(&mut v7, alone_token('.'));
    push_token(&mut v7, ident_token("into"));
    push_token(&mut v7, empty_group(Delimiter::Parenthesis));
    proof {
        assert(toks_view(v7@) =~= seq![
            word("x"@), alone('.'), word("into"@),
            grp(Delimiter::Parenthesis, Seq::<Tok>::empty()), alone(','), word("y"@),
            alone('.'), word("into"@), grp(Delimiter::Parenthesis, Seq::<Tok>::empty()),
        ]);
    }
    push_token(&mut v6, group_token(Delimiter::Parenthesis, v7));
    proof {
        assert(toks_view(v6@) =~= seq![
            word("Size2d"@),
            grp(Delimiter::Parenthesis, seq![
                word("x"@), alone('.'), word("into"@),
                grp(Delimiter::Parenthesis, Seq::<Tok>::empty()), alone(','), word("y"@),
                alone('.'), word("into"@), grp(Delimiter::Parenthesis, Seq::<Tok>::empty()),
            ]),
        ]);
    }
    push_token(&mut v5, group_token(Delimiter::Parenthesis, v6));
    proof {
        assert(toks_view(v5@) =~= seq![
            word(name@),
            grp(Delimiter::Parenthesis, seq![
                word("Size2d"@),
                grp(Delimiter::Parenthesis, seq![
                    word("x"@), alone('.'), word("into"@),
                    grp(Delimiter::Parenthesis, Seq::<Tok>::empty()), alone(','), word("y"@),
                    alone('.'), word("into"@), grp(Delimiter::Parenthesis, Seq::<Tok>::empty()),
                ]),
            ]),
        ]);
    }
    push_token(&mut v1, group_token(Delimiter::Brace, v5));
    proof {
        assert(toks_view(v1@) =~= seq![
            alone('#'),
            grp(Delimiter::Bracket, seq![word("inline"@), grp(Delimiter::Parenthesis, seq![word("always"@)])]),
            word("pub"@), word("fn"@), word("xy"@), alone('<'), word("U1"@), alone(':'),
            word("Into"@), alone('<'), word("Unit"@), alone('<'),
        ] + seq![
            word("f32"@), joint('>'), joint('>'), alone(','), word("U2"@), alone(':'),
            word("Into"@), alone('<'), word("Unit"@), alone('<'), word("f32"@), joint('>'),
        ] + seq![
            joint('>'), alone('>'),
            grp(Delimiter::Parenthesis, seq![
                word("x"@), alone(':'), word("U1"@), alone(','), word("y"@), alone(':'),
                word("U2"@),
            ]),
            joint('-'), alone('>'), word("Self"@),
            grp(Delimiter::Brace, seq![
                word(name@),
                grp(Delimiter::Parenthesis, seq![
                    word("Size2d"@),
                    grp(Delimiter::Parenthesis, seq![
                        word("x"@), alone('.'), word("into"@),
                        grp(Delimiter::Parenthesis, Seq::<Tok>::empty()), alone(','),
                        word("y"@), alone('.'), word("into"@),
                        grp(Delimiter::Parenthesis, Seq::<Tok>::empty()),
                    ]),
                ]),
            ]),
        ]);
    }
    v1
}

/// The getter of a two-dimensional size style.
pub open spec fn size2d_getter(name: Seq<char>) -> Seq<Tok> {
    seq![
        word("impl"@), word(name),
        grp(Delimiter::Brace, seq![
            alone('#'),
            grp(Delimiter::Bracket, seq![word("inline"@), grp(Delimiter::Parenthesis, seq![word("always"@)])]),
            word("pub"@), word("fn"@), word("get_size_2d"@), alone('<'), joint('\''),
            word("rect"@), alone('>'),
            grp(Delimiter::Parenthesis, seq![alone('&'), joint('\''), word("rect"@), word("self"@)]),
            joint('-'), alone('>'),
        ] + seq![
            alone('&'), joint('\''), word("rect"@), word("Size2d"@),
            grp(Delimiter::Brace, seq![alone('&'), word("self"@), alone('.'), Tok::Literal("0"@)]),
        ]),
    ]
}

/// The token trees of `size2d_getter`.
fn size2d_getter_to_tokens(name: &String) -> (r: Vec<TokenTree>)
    ensures
        toks_view(r@) == size2d_getter(name@),
{
    let mut v1 = no_tokens();
    push_token(&mut v1, ident_token("impl"));
    push_token(&mut v1, ident_of(name));
    let mut v2 = no_tokens();
    push_token(&mut v2, alone_token('#'));
    let mut v3 = no_tokens();
    push_token(&mut v3, ident_token("inline"));
    let mut v4 = no_tokens();
    push_token(&mut v4, ident_token("always"));
    proof {
        assert(toks_view(v4@) =~= seq![word("always"@)]);
    }
    push_token(&mut v3, group_token(Delimiter::Parenthesis, v4));
    proof {
        assert(toks_view(v3@) =~= seq![word("inline"@), grp(Delimiter::Parenthesis, seq![word("always"@)])]);
    }
    push_token(&mut v2, group_token(Delimiter::Bracket, v3));
    push_token(&mut v2, ident_token("pub"));
    push_token(&mut v2, ident_token("fn"));
    push_token(&mut v2, ident_token("get_size_2d"));
    push_token(&mut v2, alone_token('<'));
    push_token(&mut v2, TokenTree::Punct('\'', Spacing::Joint));
    push_token(&mut v2, ident_token("rect"));
    push_token(&mut v2, alone_token('>'));
    let mut v5 = no_tokens();
    push_token(&mut v5, alone_token('&'));
    push_token(&mut v5, TokenTree::Punct('\'', Spacing::Joint));
    push_token(&mut v5, ident_token("rect"));
    push_token(&mut v5, ident_token("self"));
    proof {
        assert(toks_view(v5@) =~= seq![alone('&'), joint('\''), word("rect"@), word("self"@)]);
    }
    push_token(&mut v2, group_token(Delimiter::Parenthesis, v5));
    push_token(&mut v2, TokenTree::Punct('-', Spacing::Joint));
    push_token(&mut v2, alone_token('>'));
    push_token(&mut v2, alone_token('&'));
    push_token(&mut v2, TokenTree::Punct('\'', Spacing::Joint));
    push_token(&mut v2, ident_token("rect"));
    push_token(&mut v2, ident_token("Size2d"));
    let mut v6 = no_tokens();
    push_token(&mut v6, alone_token('&'));
    push_token(&mut v6, ident_token("self"));
    push_token(&mut v6, alone_token('.'));
    push_token(&mut v6, TokenTree::Literal(String::from_str("0")));
    proof {
        assert(toks_view(v6@) =~= seq![alone('&'), word("self"@), alone('.'), Tok::Literal("0"@)]);
    }
    push_token(&mut v2, group_token(Delimiter::Brace, v6));
    proof {
        assert(toks_view(v2@) =~= seq![
            alone('#'),
            grp(Delimiter::Bracket, seq![word("inline"@), grp(Delimiter::Parenthesis, seq![word("always"@)])]),
            word("pub"@), word("fn"@), word("get_size_2d"@), alone('<'), joint('\''),
            word("rect"@), alone('>'),
            grp(Delimiter::Parenthesis, seq![alone('&'), joint('\''), word("rect"@), word("self"@)]),
            joint('-'), alone('>'),
        ] + seq![
            alone('&'), joint('\''), word("rect"@), word("Size2d"@),
            grp(Delimiter::Brace, seq![alone('&'), word("self"@), alone('.'), Tok::Literal("0"@)]),
        ]);
    }
    push_token(&mut v1, group_token(Delimiter::Brace, v2));
    proof {
        assert(toks_view(v1@) =~= seq![
            word("impl"@), word(name@),
            grp(Delimiter::Brace, seq![
                alone('#'),
                grp(Delimiter::Bracket, seq![word("inline"@), grp(Delimiter::Parenthesis, seq![word("always"@)])]),
                word("pub"@), word("fn"@), word("get_size_2d"@), alone('<'), joint('\''),
                word("rect"@), alone('>'),
                grp(Delimiter::Parenthesis, seq![alone('&'), joint('\''), word("rect"@), word("self"@)]),
                joint('-'), alone('>'),
            ] + seq![
                alone('&'), joint('\''), word("rect"@), word("Size2d"@),
                grp(Delimiter::Brace, seq![alone('&'), word("self"@), alone('.'), Tok::Literal("0"@)]),
            ]),
        ]);
    }
    v1
}

/// The constructor of a color style from a hex string; an invalid one gives a transparent color.
pub open spec fn color_constructor(name: Seq<char>) -> Seq<Tok> {
    seq![
        word("impl"@), word(name),
        grp(Delimiter::Brace, seq![
            alone('#'),
            grp(Delimiter::Bracket, seq![word("inline"@), grp(Delimiter::Parenthesis, seq![word("always"@)])]),
            word("pub"@), word("fn"@), word("hex"@),
            grp(Delimiter::Parenthesis, seq![word("hex"@), alone(':'), alone('&'), word("str"@)]),
            joint('-'), alone('>'), word("Self"@),
            grp(Delimiter::Brace, seq![
                word(name),
                grp(Delimiter::Parenthesis, seq![
                    word("Color"@), joint(':'), alone(':'), word("hex"@),
                    grp(Delimiter::Parenthesis, seq![word("hex"@)]), alone('.'),
                    word("unwrap_or"@),
                    grp(Delimiter::Parenthesis, seq![word("Color"@), joint(':'), alone(':'), word("Transparent"@)]),
                ]),
            ]),
        ]),
    ]
}

/// The token trees of `color_constructor`.
fn color_constructor_to_tokens(name: &String) -> (r: Vec<TokenTree>)
    ensures
        toks_view(r@) == color_constructor(name@),
{
    let mut v1 = no_tokens();
    push_token(&mut v1, ident_token("impl"));
    push_token(&mut v1, ident_of(name));
    let mut v2 = no_tokens();
    push_token(&mut v2, alone_token('#'));
    let mut v3 = no_tokens();
    push_token(&mut v3, ident_token("inline"));
    let mut v4 = no_tokens();
    push_token(&mut v4, ident_token("always"));
    proof {
        assert(toks_view(v4@) =~= seq![word("always"@)]);
    }
    push_token(&mut v3, group_token(Delimiter::Parenthesis, v4));
    proof {
        assert(toks_view(v3@) =~= seq![word("inline"@), grp(Delimiter::Parenthesis, seq![word("always"@)])]);
    }
    push_token(&mut v2, group_token(Delimiter::Bracket, v3));
    push_token(&mut v2, ident_token("pub"));
    push_token(&mut v2, ident_token("fn"));
    push_token(&mut v2, ident_token("hex"));
    let mut v5 = no_tokens();
    push_token(&mut v5, ident_token("hex"));
    push_token(&mut v5, alone_token(':'));
    push_token(&mut v5, alone_token('&'));
    push_token(&mut v5, ident_token("str"));
    proof {
        assert(toks_view(v5@) =~= seq![word("hex"@), alone(':'), alone('&'), word("str"@)]);
    }
    push_token(&mut v2, group_token(Delimiter::Parenthesis, v5));
    push_token(&mut v2, TokenTree::Punct('-', Spacing::Joint));
    push_token(&mut v2, alone_token('>'));
    push_token(&mut v2, ident_token("Self"));
    let mut v6 = no_tokens();
    push_token(&mut v6, ident_of(name));
    let mut v7 = no_tokens();
    push_token(&mut v7, ident_token("Color"));
    push_token(&mut v7, TokenTree::Punct(':', Spacing::Joint));
    push_token(&mut v7, alone_token(':'));
    push_token(&mut v7, ident_token("hex"));
    let mut v8 = no_tokens();
    push_token(&mut v8, ident_token("hex"));
    proof {
        assert(toks_view(v8@) =~= seq![word("hex"@)]);
    }
    push_token(&mut v7, group_token(Delimiter::Parenthesis, v8));
    push_token(&mut v7, alone_token('.'));
    push_token(&mut v7, ident_token("unwrap_or"));
    let mut v9 = no_tokens();
    push_token(&mut v9, ident_token("Color"));
    push_token(&mut v9, TokenTree::Punct(':', Spacing::Joint));
    push_token(&mut v9, alone_token(':'));
    push_token(&mut v9, ident_token("Transparent"));
    proof {
        assert(toks_view(v9@) =~= seq![word("Color"@), joint(':'), alone(':'), word("Transparent"@)]);
    }
    push_token(&mut v7, group_token(Delimiter::Parenthesis, v9));
    proof {
        assert(toks_view(v7@) =~= seq![
            word("Color"@), joint(':'), alone(':'), word("hex"@),
            grp(Delimiter::Parenthesis, seq![word("hex"@)]), alone('.'), word("unwrap_or"@),
            grp(Delimiter::Parenthesis, seq![word("Color"@), joint(':'), alone(':'), word("Transparent"@)]),
        ]);
    }
    push_token(&mut v6, group_token(Delimiter::Parenthesis, v7));
    proof {
        assert(toks_view(v6@) =~= seq![
            word(name@),
            grp(Delimiter::Parenthesis, seq![
                word("Color"@), joint(':'), alone(':'), word("hex"@),
                grp(Delimiter::Parenthesis, seq![word("hex"@)]), alone('.'), word("unwrap_or"@),
                grp(Delimiter::Parenthesis, seq![word("Color"@), joint(':'), alone(':'), word("Transparent"@)]),
            ]),
        ]);
    }
    push_token(&mut v2, group_token(Delimiter::Brace, v6));
    proof {
        assert(toks_view(v2@) =~= seq![
            alone('#'),
            grp(Delimiter::Bracket, seq![word("inline"@), grp(Delimiter::Parenthesis, seq![word("always"@)])]),
            word("pub"@), word("fn"@), word("hex"@),
            grp(Delimiter::Parenthesis, seq![word("hex"@), alone(':'), alone('&'), word("str"@)]),
            joint('-'), alone('>'), word("Self"@),
            grp(Delimiter::Brace, seq![
                word(name@),
                grp(Delimiter::Parenthesis, seq![
                    word("Color"@), joint(':'), alone(':'), word("hex"@),
                    grp(Delimiter::Parenthesis, seq![word("hex"@)]), alone('.'),
                    word("unwrap_or"@),
                    grp(Delimiter::Parenthesis, seq![word("Color"@), joint(':'), alone(':'), word("Transparent"@)]),
                ]),
            ]),
        ]);
    }
    push_token(&mut v1, group_token(Delimiter::Brace, v2));
    proof {
        assert(toks_view(v1@) =~= seq![
            word("impl"@), word(name@),
            grp(Delimiter::Brace, seq![
                alone('#'),
                grp(Delimiter::Bracket, seq![word("inline"@), grp(Delimiter::Parenthesis, seq![word("always"@)])]),
                word("pub"@), word("fn"@), word("hex"@),
                grp(Delimiter::Parenthesis, seq![word("hex"@), alone(':'), alone('&'), word("str"@)]),
                joint('-'), alone('>'), word("Self"@),
                grp(Delimiter::Brace, seq![
                    word(name@),
                    grp(Delimiter::Parenthesis, seq![
                        word("Color"@), joint(':'), alone(':'), word("hex"@),
                        grp(Delimiter::Parenthesis, seq![word("hex"@)]), alone('.'),
                        word("unwrap_or"@),
                        grp(Delimiter::Parenthesis, seq![
                            word("Color"@), joint(':'), alone(':'), word("Transparent"@),
                        ]),
                    ]),
                ]),
            ]),
        ]);
    }
    v1
}

/// The getter of a color style.
pub open spec fn color_getter(name: Seq<char>) -> Seq<Tok> {
    seq![
        word("impl"@), word(name),
        grp(Delimiter::Brace, seq![
            word("pub"@), word("fn"@), word("color"@),
            grp(Delimiter::Parenthesis, seq![alone('&'), word("self"@)]), joint('-'),
            alone('>'), alone('&'), word("Color"@),
            grp(Delimiter::Brace, seq![alone('&'), word("self"@), alone('.'), Tok::Literal("0"@)]),
        ]),
    ]
}

/// The token trees of `color_getter`.
fn color_getter_to_tokens(name: &String) -> (r: Vec<TokenTree>)
    ensures
        toks_view(r@) == color_getter(name@),
{
    let mut v1 = no_tokens();
    push_token(&mut v1, ident_token("impl"));
    push_token(&mut v1, ident_of(name));
    let mut v2 = no_tokens();
    push_token(&mut v2, ident_token("pub"));
    push_token(&mut v2, ident_token("fn"));
    push_token(&mut v2, ident_token("color"));
    let mut v3 = no_tokens();
    push_token(&mut v3, alone_token('&'));
    push_token(&mut v3, ident_token("self"));
    proof {
        assert(toks_view(v3@) =~= seq![alone('&'), word("self"@)]);
    }
    push_token(&mut v2, group_token(Delimiter::Parenthesis, v3));
    push_token(&mut v2, TokenTree::Punct('-', Spacing::Joint));
    push_token(&mut v2, alone_token('>'));
    push_token(&mut v2, alone_token('&'));
    push_token(&mut v2, ident_token("Color"));
    let mut v4 = no_tokens();
    push_token(&mut v4, alone_token('&'));
    push_token(&mut v4, ident_token("self"));
    push_token(&mut v4, alone_token('.'));
    push_token(&mut v4, TokenTree::Literal(String::from_str("0")));
    proof {
        assert(toks_view(v4@) =~= seq![alone('&'), word("self"@), alone('.'), Tok::Literal("0"@)]);
    }
    push_token(&mut v2, group_token(Delimiter::Brace, v4));
    proof {
        assert(toks_view(v2@) =~= seq![
            word("pub"@), word("fn"@), word("color"@),
            grp(Delimiter::Parenthesis, seq![alone('&'), word("self"@)]), joint('-'),
            alone('>'), alone('&'), word("Color"@),
            grp(Delimiter::Brace, seq![alone('&'), word("self"@), alone('.'), Tok::Literal("0"@)]),
        ]);
    }
    push_token(&mut v1, group_token(Delimiter::Brace, v2));
    proof {
        assert(toks_view(v1@) =~= seq![
            word("impl"@), word(name@),
            grp(Delimiter::Brace, seq![
                word("pub"@), word("fn"@), word("color"@),
                grp(Delimiter::Parenthesis, seq![alone('&'), word("self"@)]), joint('-'),
                alone('>'), alone('&'), word("Color"@),
                grp(Delimiter::Brace, seq![alone('&'), word("self"@), alone('.'), Tok::Literal("0"@)]),
            ]),
        ]);
    }
    v1
}

/// `impl name { new, all, xy }`: the constructors of a rect style.
pub open spec fn rect_constructors(name: Seq<char>) -> Seq<Tok> {
    seq![
        word("impl"@),
        word(name),
        grp(Delimiter::Brace, rect_new_fn(name) + rect_all_fn(name) + rect_xy_fn(name)),
    ]
}

/// The token trees of `rect_constructors`.
fn rect_constructors_to_tokens(name: &String) -> (r: Vec<TokenTree>)
    ensures
        toks_view(r@) == rect_constructors(name@),
{
    let mut body = rect_new_fn_to_tokens(name);
    append_tokens(&mut body, rect_all_fn_to_tokens(name));
    append_tokens(&mut body, rect_xy_fn_to_tokens(name));
    let mut v: Vec<TokenTree> = Vec::new();
    proof {
        assert(toks_view(v@) =~= Seq::<Tok>::empty());
    }
    push_token(&mut v, ident_token("impl"));
    push_token(&mut v, ident_of(name));
    push_token(&mut v, group_token(Delimiter::Brace, body));
    proof {
        assert(toks_view(v@) =~= rect_constructors(name@));
    }
    v
}

/// `impl name { new, both, xy }`: the constructors of a two-dimensional
/// size style.
pub open spec fn size2d_constructors(name: Seq<char>) -> Seq<Tok> {
    seq![
        word("impl"@),
        word(name),
        grp(Delimiter::Brace, size2d_new_fn(name) + size2d_both_fn(name) + size2d_xy_fn(name)),
    ]
}

/// The token trees of `size2d_constructors`.
fn size2d_constructors_to_tokens(name: &String) -> (r: Vec<TokenTree>)
    ensures
        toks_view(r@) == size2d_constructors(name@),
{
    let mut body = size2d_new_fn_to_tokens(name);
    append_tokens(&mut body, size2d_both_fn_to_tokens(name));
    append_tokens(&mut body, size2d_xy_fn_to_tokens(name));
    let mut v: Vec<TokenTree> = Vec::new();
    proof {
        assert(toks_view(v@) =~= Seq::<Tok>::empty());
    }
    push_token(&mut v, ident_token("impl"));
    push_token(&mut v, ident_of(name));
    push_token(&mut v, group_token(Delimiter::Brace, body));
    proof {
        assert(toks_view(v@) =~= size2d_constructors(name@));
    }
    v
}

/// What deriving `Unit` gives the type `name`.
pub open spec fn unit_impl_tokens(name: Seq<char>) -> Seq<Tok> {
    derived_attr() + unit_methods(name) + derived_attr() + unit_from_impl(name) + derived_attr()
        + into_field_impl(name, unit_ty()) + derived_attr() + deref_impl(name, unit_f32_ty())
        + derived_attr() + into_style_value_impl(name) + derived_attr() + style_impl(name)
}

/// What deriving `Rect` gives the type `name`.
pub open spec fn rect_impl_tokens(name: Seq<char>) -> Seq<Tok> {
    derived_attr() + rect_constructors(name) + derived_attr() + rect_getter(name) + derived_attr()
        + deref_impl(name, named_ty("Rect"@)) + derived_attr() + into_field_impl(
        name,
        named_ty("Rect"@),
    ) + derived_attr() + into_style_value_impl(name) + derived_attr() + style_impl(name)
}

/// What deriving `Size2d` gives the type `name`.
pub open spec fn size2d_impl_tokens(name: Seq<char>) -> Seq<Tok> {
    size2d_constructors(name) + deref_impl(name, named_ty("Size2d"@)) + size2d_getter(name)
        + into_style_value_impl(name) + style_impl(name)
}

/// What deriving `Color` gives the type `name`.
pub open spec fn color_impl_tokens(name: Seq<char>) -> Seq<Tok> {
    derived_attr() + color_constructor(name) + derived_attr() + color_getter(name) + derived_attr()
        + deref_impl(name, named_ty("Color"@)) + derived_attr() + into_style_value_impl(name)
        + derived_attr() + style_impl(name)
}

/// Derives `Unit` for the item `input`: a constructor from anything that
/// turns into a `Unit`, the getter, `From<Unit>`, `Into<Unit>`, `Deref` to
/// `Unit<f32>`, `Into<StyleValue>` and `Style`; or, if `input` declares no
/// struct, enum or union, the error.
pub fn asdf_unit(input: Vec<TokenTree>) -> (out: Result<Vec<TokenTree>, UIxError>)
    ensures
        match derive_input_name(toks_view(input@)) {
            Some(n) => out matches Ok(v) && toks_view(v@) == unit_impl_tokens(n),
            None => out == Err::<Vec<TokenTree>, UIxError>(UIxError::ExpectedItem),
        },
{
    let ts = TokenStream::new(input);
    let name = match scan_derive_input(&ts) {
        None => {
            return Err(UIxError::ExpectedItem);
        },
        Some(w) => w,
    };
    let mut out: Vec<TokenTree> = Vec::new();
    proof {
        assert(toks_view(out@) =~= Seq::<Tok>::empty());
    }
    derived_attr_to_tokens(&mut out);
    append_tokens(&mut out, unit_methods_to_tokens(&name));
    derived_attr_to_tokens(&mut out);
    append_tokens(&mut out, unit_from_impl_to_tokens(&name));
    derived_attr_to_tokens(&mut out);
    append_tokens(&mut out, into_field_impl_to_tokens(&name, &named_ty_tokens("Unit")));
    derived_attr_to_tokens(&mut out);
    append_tokens(&mut out, deref_impl_to_tokens(&name, &unit_f32_tokens()));
    derived_attr_to_tokens(&mut out);
    append_tokens(&mut out, into_style_value_impl_to_tokens(&name));
    derived_attr_to_tokens(&mut out);
    append_tokens(&mut out, style_impl_to_tokens(&name));
    proof {
        reveal_strlit("Unit");
        assert(named_ty("Unit"@) =~= unit_ty());
        assert(toks_view(out@) =~= unit_impl_tokens(name@));
    }
    Ok(out)
}

/// Derives `Rect` for the item `input`: constructors from one value for all
/// sides, from each side, and from `x` and `y`; the getter, `Deref` to and
/// `Into` the `Rect`, `Into<StyleValue>` and `Style`; or, if `input`
/// declares no struct, enum or union, the error.
pub fn derive_rect(input: Vec<TokenTree>) -> (out: Result<Vec<TokenTree>, UIxError>)
    ensures
        match derive_input_name(toks_view(input@)) {
            Some(n) => out matches Ok(v) && toks_view(v@) == rect_impl_tokens(n),
            None => out == Err::<Vec<TokenTree>, UIxError>(UIxError::ExpectedItem),
        },
{
    let ts = TokenStream::new(input);
    let name = match scan_derive_input(&ts) {
        None => {
            return Err(UIxError::ExpectedItem);
        },
        Some(w) => w,
    };
    let mut out: Vec<TokenTree> = Vec::new();
    proof {
        assert(toks_view(out@) =~= Seq::<Tok>::empty());
    }
    derived_attr_to_tokens(&mut out);
    append_tokens(&mut out, rect_constructors_to_tokens(&name));
    derived_attr_to_tokens(&mut out);
    append_tokens(&mut out, rect_getter_to_tokens(&name));
    derived_attr_to_tokens(&mut out);
    append_tokens(&mut out, deref_impl_to_tokens(&name, &named_ty_tokens("Rect")));
    derived_attr_to_tokens(&mut out);
    append_tokens(&mut out, into_field_impl_to_tokens(&name, &named_ty_tokens("Rect")));
    derived_attr_to_tokens(&mut out);
    append_tokens(&mut out, into_style_value_impl_to_tokens(&name));
    derived_attr_to_tokens(&mut out);
    append_tokens(&mut out, style_impl_to_tokens(&name));
    proof {
        assert(toks_view(out@) =~= rect_impl_tokens(name@));
    }
    Ok(out)
}

/// Derives `Size2d` for the item `input`: constructors from `x` and `y`,
/// `Deref` to the `Size2d`, the getter, `Into<StyleValue>` and `Style`; or,
/// if `input` declares no struct, enum or union, the error.
pub fn derive_size2d(input: Vec<TokenTree>) -> (out: Result<Vec<TokenTree>, UIxError>)
    ensures
        match derive_input_name(toks_view(input@)) {
            Some(n) => out matches Ok(v) && toks_view(v@) == size2d_impl_tokens(n),
            None => out == Err::<Vec<TokenTree>, UIxError>(UIxError::ExpectedItem),
        },
{
    let ts = TokenStream::new(input);
    let name = match scan_derive_input(&ts) {
        None => {
            return Err(UIxError::ExpectedItem);
        },
        Some(w) => w,
    };
    let mut out: Vec<TokenTree> = Vec::new();
    proof {
        assert(toks_view(out@) =~= Seq::<Tok>::empty());
    }
    append_tokens(&mut out, size2d_constructors_to_tokens(&name));
    append_tokens(&mut out, deref_impl_to_tokens(&name, &named_ty_tokens("Size2d")));
    append_tokens(&mut out, size2d_getter_to_tokens(&name));
    append_tokens(&mut out, into_style_value_impl_to_tokens(&name));
    append_tokens(&mut out, style_impl_to_tokens(&name));
    proof {
        assert(toks_view(out@) =~= size2d_impl_tokens(name@));
    }
    Ok(out)
}

/// Derives `Color` for the item `input`: a constructor from a hex string,
/// the getter, `Deref` to the `Color`, `Into<StyleValue>` and `Style`; or,
/// if `input` declares no struct, enum or union, the error.
pub fn derive_color(input: Vec<TokenTree>) -> (out: Result<Vec<TokenTree>, UIxError>)
    ensures
        match derive_input_name(toks_view(input@)) {
            Some(n) => out matches Ok(v) && toks_view(v@) == color_impl_tokens(n),
            None => out == Err::<Vec<TokenTree>, UIxError>(UIxError::ExpectedItem),
        },
{
    let ts = TokenStream::new(input);
    let name = match scan_derive_input(&ts) {
        None => {
            return Err(UIxError::ExpectedItem);
        },
        Some(w) => w,
    };
    let mut out: Vec<TokenTree> = Vec::new();
    proof {
        assert(toks_view(out@) =~= Seq::<Tok>::empty());
    }
    derived_attr_to_tokens(&mut out);
    append_tokens(&mut out, color_constructor_to_tokens(&name));
    derived_attr_to_tokens(&mut out);
    append_tokens(&mut out, color_getter_to_tokens(&name));
    derived_attr_to_tokens(&mut out);
    append_tokens(&mut out, deref_impl_to_tokens(&name, &named_ty_tokens("Color")));
    derived_attr_to_tokens(&mut out);
    append_tokens(&mut out, into_style_value_impl_to_tokens(&name));
    derived_attr_to_tokens(&mut out);
    append_tokens(&mut out, style_impl_to_tokens(&name));
    proof {
        assert(toks_view(out@) =~= color_impl_tokens(name@));
    }
    Ok(out)
}

/// Derives `StyleProperty` for the item `input`: it gives nothing yet; or,
/// if `input` declares no struct, enum or union, the error.
pub fn asdf_style_property(input: Vec<TokenTree>) -> (out: Result<Vec<TokenTree>, UIxError>)
    ensures
        match derive_input_name(toks_view(input@)) {
            Some(_) => out matches Ok(v) && v@.len() == 0,
            None => out == Err::<Vec<TokenTree>, UIxError>(UIxError::ExpectedItem),
        },
{
    let ts = TokenStream::new(input);
    match scan_derive_input(&ts) {
        None => Err(UIxError::ExpectedItem),
        Some(_) => Ok(Vec::new()),
    }
}

} // verus!
