//! What a whole `uix!` block expands to: the closures of its classes, its
//! root elements, and around them the closure that takes the scaffold.
//!
//! ```text
//! {
//!     use slate::style::StyleSheet;
//!     use slate::style::primitive::*;
//!     ..
//!     move |scaffold| {
//!         let card = move |stylesheet: &mut StyleSheet| {
//!             stylesheet.push(Padding(4));
//!         };
//!         let _00000 = scaffold.add({ .. })? .. .build();
//!         Ok(())
//!     }
//! }
//! ```
use vstd::prelude::*;

use vstd::string::StringExecFns;

use crate::uix::element::exprs_view;
use crate::uix::emit::{
    alone, alone_token, empty_group, grp, group_token, ident_of, ident_token, joint,
    nodes_tokens, ok_unit, push_token, word,
};
use crate::uix::markup::{
    BlockV, ClassStyles, ClassStylesV, UIxBlock, UIxElement, class_styles_view, lemma_nodes_view_push,
    nodes_view, parse_block,
};
use crate::uix::syntax::UIxError;
use crate::uix::token::{Delimiter, Spacing, Tok, TokenTree, duplicate_tokens, toks_view};

verus! {

/// `stylesheet.push(x);` for each expression `x`, in order.
pub open spec fn pushes_tokens(xs: Seq<Seq<Tok>>) -> Seq<Tok>
    decreases xs.len(),
{
    if xs.len() == 0 {
        Seq::empty()
    } else {
        pushes_tokens(xs.drop_last()) + seq![
            word("stylesheet"@),
            alone('.'),
            word("push"@),
            grp(Delimiter::Parenthesis, xs.last()),
            alone(';'),
        ]
    }
}

/// `let name = move |stylesheet: &mut StyleSheet| { pushes };`
pub open spec fn class_decl_tokens(c: ClassStylesV) -> Seq<Tok> {
    seq![
        word("let"@),
        word(c.name),
        alone('='),
        word("move"@),
        alone('|'),
        word("stylesheet"@),
        alone(':'),
        alone('&'),
        word("mut"@),
        word("StyleSheet"@),
        alone('|'),
        grp(Delimiter::Brace, pushes_tokens(c.exprs)),
        alone(';'),
    ]
}

/// The closures of all the classes, in order.
pub open spec fn class_decls_tokens(cs: Seq<ClassStylesV>) -> Seq<Tok>
    decreases cs.len(),
{
    if cs.len() == 0 {
        Seq::empty()
    } else {
        class_decls_tokens(cs.drop_last()) + class_decl_tokens(cs.last())
    }
}

/// What a block expands to: the closures of its classes, then its roots.
pub open spec fn block_tokens(b: BlockV) -> Seq<Tok> {
    class_decls_tokens(b.styles) + nodes_tokens(b.roots)
}

/// The segments of a path, joined by `::`.
pub open spec fn path_tokens(segs: Seq<Seq<char>>) -> Seq<Tok>
    decreases segs.len(),
{
    if segs.len() <= 1 {
        segs.map_values(|w: Seq<char>| word(w))
    } else {
        path_tokens(segs.drop_last()) + seq![joint(':'), alone(':'), word(segs.last())]
    }
}

/// `use path;`, or `use path::*;` for a glob.
pub open spec fn use_tokens(segs: Seq<Seq<char>>, glob: bool) -> Seq<Tok> {
    seq![word("use"@)] + path_tokens(segs) + (if glob {
        seq![joint(':'), alone(':'), alone('*')]
    } else {
        Seq::empty()
    }) + seq![alone(';')]
}

/// `#[allow(lint)]`
pub open spec fn allow_tokens(lint: Seq<char>) -> Seq<Tok> {
    seq![
        alone('#'),
        grp(Delimiter::Bracket, seq![word("allow"@), grp(Delimiter::Parenthesis, seq![word(lint)])]),
    ]
}

/// The imports and lints in front of the closure of a `uix!` block.
pub open spec fn uix_prelude() -> Seq<Tok> {
    use_tokens(seq!["slate"@, "style"@, "StyleSheet"@], false)
        + use_tokens(seq!["slate"@, "style"@, "primitive"@], true)
        + use_tokens(seq!["slate"@, "style"@, "primitive"@, "Unit"@], true)
        + use_tokens(seq!["slate"@, "style"@, "property"@], true)
        + use_tokens(seq!["slate"@, "event"@, "EventPin"@], true)
        + allow_tokens("unnecessary_braces"@)
        + allow_tokens("unused_braces"@)
        + allow_tokens("unused_parens"@)
}

/// What a `uix!` block expands to: a block with the imports, and the closure
/// that builds the block on the scaffold it is given.
pub open spec fn uix_tokens(b: BlockV) -> Seq<Tok> {
    seq![
        grp(
            Delimiter::Brace,
            uix_prelude() + seq![
                word("move"@),
                alone('|'),
                word("scaffold"@),
                alone('|'),
                grp(Delimiter::Brace, block_tokens(b) + ok_unit()),
            ],
        ),
    ]
}

/// Appends `stylesheet.push(x);` for each expression `x`.
pub fn pushes_to_tokens(xs: &Vec<Vec<TokenTree>>, out: &mut Vec<TokenTree>)
    ensures
        toks_view(final(out)@) == toks_view(old(out)@) + pushes_tokens(exprs_view(xs@)),
{
    let ghost init = toks_view(out@);
    let ghost xv = exprs_view(xs@);
    let mut i: usize = 0;
    proof {
        assert(xv.take(0) =~= Seq::<Seq<Tok>>::empty());
        assert(init + pushes_tokens(Seq::<Seq<Tok>>::empty()) =~= init);
    }
    while i < xs.len()
        invariant
            i <= xs.len(),
            xv == exprs_view(xs@),
            toks_view(out@) == init + pushes_tokens(xv.take(i as int)),
        decreases xs.len() - i,
    {
        let ghost before = toks_view(out@);
        push_token(out, ident_token("stylesheet"));
        push_token(out, alone_token('.'));
        push_token(out, ident_token("push"));
        push_token(out, group_token(Delimiter::Parenthesis, duplicate_tokens(&xs[i])));
        push_token(out, alone_token(';'));
        proof {
            assert(xv.take(i + 1).drop_last() =~= xv.take(i as int));
            assert(toks_view(out@) =~= init + pushes_tokens(xv.take(i + 1)));
        }
        i = i + 1;
    }
    proof {
        assert(xv.take(i as int) =~= xv);
    }
}

/// Appends the closures of the classes.
fn class_decls_to_tokens(styles: &Vec<ClassStyles>, out: &mut Vec<TokenTree>)
    ensures
        toks_view(final(out)@) == toks_view(old(out)@) + class_decls_tokens(
            class_styles_view(styles@),
        ),
{
    let ghost init = toks_view(out@);
    let ghost cv = class_styles_view(styles@);
    let mut i: usize = 0;
    proof {
        assert(cv.take(0) =~= Seq::<ClassStylesV>::empty());
        assert(init + class_decls_tokens(Seq::<ClassStylesV>::empty()) =~= init);
    }
    while i < styles.len()
        invariant
            i <= styles.len(),
            cv == class_styles_view(styles@),
            toks_view(out@) == init + class_decls_tokens(cv.take(i as int)),
        decreases styles.len() - i,
    {
        let c = &styles[i];
        let ghost before = toks_view(out@);
        let mut body: Vec<TokenTree> = Vec::new();
        pushes_to_tokens(&c.exprs, &mut body);
        push_token(out, ident_token("let"));
        push_token(out, ident_of(&c.name));
        push_token(out, alone_token('='));
        push_token(out, ident_token("move"));
        push_token(out, alone_token('|'));
        push_token(out, ident_token("stylesheet"));
        push_token(out, alone_token(':'));
        push_token(out, alone_token('&'));
        push_token(out, ident_token("mut"));
        push_token(out, ident_token("StyleSheet"));
        push_token(out, alone_token('|'));
        proof {
            assert(toks_view(body@) =~= Seq::<Tok>::empty() + pushes_tokens(exprs_view(c.exprs@)));
        }
        push_token(out, group_token(Delimiter::Brace, body));
        push_token(out, alone_token(';'));
        proof {
            assert(cv[i as int] == (ClassStylesV { name: c.name@, exprs: exprs_view(c.exprs@) }));
            assert(toks_view(out@) =~= before + class_decl_tokens(cv[i as int]));
            assert(cv.take(i + 1).drop_last() =~= cv.take(i as int));
            assert(init + class_decls_tokens(cv.take(i as int)) + class_decl_tokens(cv[i as int])
                =~= init + class_decls_tokens(cv.take(i + 1)));
        }
        i = i + 1;
    }
    proof {
        assert(cv.take(i as int) =~= cv);
    }
}

/// What a sequence of elements expands to, after one more.
proof fn lemma_nodes_tokens_push(s: Seq<crate::uix::markup::NodeV>, n: crate::uix::markup::NodeV)
    ensures
        nodes_tokens(s.push(n)) == nodes_tokens(s) + crate::uix::emit::element_tokens(n),
{
    assert(s.push(n).drop_last() =~= s);
}

/// Appends what a sequence of elements expands to.
fn elements_to_tokens(elements: &Vec<UIxElement>, out: &mut Vec<TokenTree>)
    ensures
        toks_view(final(out)@) == toks_view(old(out)@) + nodes_tokens(nodes_view(elements@)),
{
    let ghost init = toks_view(out@);
    let mut i: usize = 0;
    proof {
        assert(elements@.take(0) =~= Seq::<UIxElement>::empty());
        assert(init + nodes_tokens(nodes_view(elements@.take(0))) =~= init);
    }
    while i < elements.len()
        invariant
            i <= elements.len(),
            toks_view(out@) == init + nodes_tokens(nodes_view(elements@.take(i as int))),
        decreases elements.len() - i,
    {
        elements[i].to_tokens(out);
        proof {
            assert(elements@.take(i + 1) =~= elements@.take(i as int).push(elements@[i as int]));
            lemma_nodes_view_push(elements@.take(i as int), elements@[i as int]);
            lemma_nodes_tokens_push(
                nodes_view(elements@.take(i as int)),
                elements@[i as int].node(),
            );
        }
        i = i + 1;
    }
    proof {
        assert(elements@.take(i as int) =~= elements@);
    }
}

/// The values of a list of words.
pub open spec fn words_view(v: Seq<&str>) -> Seq<Seq<char>> {
    v.map_values(|w: &str| w@)
}

/// Appends `use path;`, or `use path::*;` for a glob.
pub fn use_to_tokens(segs: Vec<&str>, glob: bool, out: &mut Vec<TokenTree>)
    requires
        segs.len() > 0,
    ensures
        toks_view(final(out)@) == toks_view(old(out)@) + use_tokens(words_view(segs@), glob),
{
    let ghost init = toks_view(out@);
    let ghost sv = words_view(segs@);
    push_token(out, ident_token("use"));
    push_token(out, ident_token(segs[0]));
    let mut i: usize = 1;
    proof {
        assert(sv.take(1) =~= seq![sv[0]]);
        assert(path_tokens(sv.take(1)) =~= seq![word(sv[0])]);
        assert(toks_view(out@) =~= init + seq![word("use"@)] + path_tokens(sv.take(1)));
    }
    while i < segs.len()
        invariant
            1 <= i <= segs.len(),
            sv == words_view(segs@),
            toks_view(out@) == init + seq![word("use"@)] + path_tokens(sv.take(i as int)),
        decreases segs.len() - i,
    {
        push_token(out, TokenTree::Punct(':', Spacing::Joint));
        push_token(out, alone_token(':'));
        push_token(out, ident_token(segs[i]));
        proof {
            assert(sv.take(i + 1).drop_last() =~= sv.take(i as int));
            assert(toks_view(out@) =~= init + seq![word("use"@)] + path_tokens(sv.take(i + 1)));
        }
        i = i + 1;
    }
    proof {
        assert(sv.take(i as int) =~= sv);
    }
    let ghost before = toks_view(out@);
    if glob {
        push_token(out, TokenTree::Punct(':', Spacing::Joint));
        push_token(out, alone_token(':'));
        push_token(out, alone_token('*'));
    }
    push_token(out, alone_token(';'));
    proof {
        assert(toks_view(out@) =~= init + use_tokens(sv, glob));
    }
}

/// Appends `#[allow(lint)]`.
pub fn allow_to_tokens(lint: &str, out: &mut Vec<TokenTree>)
    ensures
        toks_view(final(out)@) == toks_view(old(out)@) + allow_tokens(lint@),
{
    let ghost init = toks_view(out@);
    let mut args: Vec<TokenTree> = Vec::new();
    push_token(&mut args, ident_token(lint));
    let ghost av = toks_view(args@);
    proof {
        assert(av =~= seq![word(lint@)]);
    }
    let mut inner: Vec<TokenTree> = Vec::new();
    push_token(&mut inner, ident_token("allow"));
    push_token(&mut inner, group_token(Delimiter::Parenthesis, args));
    let ghost iv = toks_view(inner@);
    proof {
        assert(iv =~= seq![word("allow"@), grp(Delimiter::Parenthesis, seq![word(lint@)])]);
    }
    push_token(out, alone_token('#'));
    push_token(out, group_token(Delimiter::Bracket, inner));
    proof {
        assert(toks_view(out@) =~= init + allow_tokens(lint@));
    }
}

impl UIxBlock {
    /// Appends what the block expands to: the closures of its classes, then
    /// its roots. The closures come in the order in which the classes first
    /// appear.
    pub fn to_tokens(&self, tokens: &mut Vec<TokenTree>)
        ensures
            toks_view(final(tokens)@) == toks_view(old(tokens)@) + block_tokens(self.view_block()),
    {
        let ghost init = toks_view(tokens@);
        class_decls_to_tokens(self.styles(), tokens);
        elements_to_tokens(self.roots(), tokens);
        proof {
            assert(toks_view(tokens@) =~= init + block_tokens(self.view_block()));
        }
    }
}

/// The text of the string literal that reports `e`: the message in double
/// quotes.
pub open spec fn error_literal(e: UIxError) -> Seq<char> {
    match e {
        UIxError::ExpectedIdent => "\"expected an identifier\""@,
        UIxError::ExpectedPropValue => "\"expected a prop value\""@,
        UIxError::ExpectedExpr => "\"expected an expression\""@,
        UIxError::ExpectedPathSegment => "\"expected a path segment\""@,
        UIxError::UnexpectedToken => "\"unexpected token\""@,
        UIxError::UnknownAttribute => "\"unknown attribute\""@,
        UIxError::AttributeIdent => "\"expected an attribute name\""@,
        UIxError::ExpectedList => "\"expected a list of arguments\""@,
        UIxError::ExpectedEventName => "\"expected an event name\""@,
        UIxError::ClosingTagMismatch => "\"the closing tag names another element\""@,
        UIxError::NotAStruct => "\"Element can only be derived for structs\""@,
        UIxError::RenderArguments => "\"Invalid arguments.\""@,
        UIxError::RenderPathTwice => "\"Path already exists!\""@,
        UIxError::UnsupportedRenderArgument => "\"Unsupported argument\""@,
        UIxError::ExpectedItem => "\"expected `struct`, `enum` or `union`\""@,
        UIxError::ExpectedPunct(c) => if c == '<' { "\"expected `<`\""@ } else if c == '>' { "\"expected `>`\""@ } else if c == '#' { "\"expected `#`\""@ } else if c == '.' { "\"expected `.`\""@ } else if c == '/' { "\"expected `/`\""@ } else if c == '=' { "\"expected `=`\""@ } else { "\"expected punctuation\""@ },
        UIxError::ExpectedGroup(d) => match d {
            Delimiter::Parenthesis => "\"expected parentheses\""@,
            Delimiter::Brace => "\"expected braces\""@,
            Delimiter::Bracket => "\"expected brackets\""@,
            Delimiter::Invisible => "\"expected a group\""@,
        },
    }
}

/// `::core::compile_error! { "message" }`: what a block that cannot be
/// parsed expands to, so that the compiler reports why.
pub open spec fn compile_error_tokens(e: UIxError) -> Seq<Tok> {
    seq![
        joint(':'),
        alone(':'),
        word("core"@),
        joint(':'),
        alone(':'),
        word("compile_error"@),
        alone('!'),
        grp(Delimiter::Brace, seq![Tok::Literal(error_literal(e))]),
    ]
}

/// The text of the string literal that reports `e`.
fn error_literal_text(e: UIxError) -> (r: &'static str)
    ensures
        r@ == error_literal(e),
{
    match e {
        UIxError::ExpectedIdent => "\"expected an identifier\"",
        UIxError::ExpectedPropValue => "\"expected a prop value\"",
        UIxError::ExpectedExpr => "\"expected an expression\"",
        UIxError::ExpectedPathSegment => "\"expected a path segment\"",
        UIxError::UnexpectedToken => "\"unexpected token\"",
        UIxError::UnknownAttribute => "\"unknown attribute\"",
        UIxError::AttributeIdent => "\"expected an attribute name\"",
        UIxError::ExpectedList => "\"expected a list of arguments\"",
        UIxError::ExpectedEventName => "\"expected an event name\"",
        UIxError::ClosingTagMismatch => "\"the closing tag names another element\"",
        UIxError::NotAStruct => "\"Element can only be derived for structs\"",
        UIxError::RenderArguments => "\"Invalid arguments.\"",
        UIxError::RenderPathTwice => "\"Path already exists!\"",
        UIxError::UnsupportedRenderArgument => "\"Unsupported argument\"",
        UIxError::ExpectedItem => "\"expected `struct`, `enum` or `union`\"",
        UIxError::ExpectedPunct(c) => if c == '<' { "\"expected `<`\"" } else if c == '>' { "\"expected `>`\"" } else if c == '#' { "\"expected `#`\"" } else if c == '.' { "\"expected `.`\"" } else if c == '/' { "\"expected `/`\"" } else if c == '=' { "\"expected `=`\"" } else { "\"expected punctuation\"" },
        UIxError::ExpectedGroup(d) => match d {
            Delimiter::Parenthesis => "\"expected parentheses\"",
            Delimiter::Brace => "\"expected braces\"",
            Delimiter::Bracket => "\"expected brackets\"",
            Delimiter::Invisible => "\"expected a group\"",
        },
    }
}

impl UIxError {
    /// The tokens that make the compiler report this error:
    /// `::core::compile_error! { "message" }`.
    pub fn to_compile_error(&self) -> (r: Vec<TokenTree>)
        ensures
            toks_view(r@) == compile_error_tokens(*self),
    {
        let mut body: Vec<TokenTree> = Vec::new();
        proof {
            assert(toks_view(body@) =~= Seq::<Tok>::empty());
        }
        push_token(&mut body, TokenTree::Literal(String::from_str(error_literal_text(*self))));
        let ghost bv = toks_view(body@);
        let mut out: Vec<TokenTree> = Vec::new();
        proof {
            assert(toks_view(out@) =~= Seq::<Tok>::empty());
        }
        push_token(&mut out, TokenTree::Punct(':', Spacing::Joint));
        push_token(&mut out, alone_token(':'));
        push_token(&mut out, ident_token("core"));
        push_token(&mut out, TokenTree::Punct(':', Spacing::Joint));
        push_token(&mut out, alone_token(':'));
        push_token(&mut out, ident_token("compile_error"));
        push_token(&mut out, alone_token('!'));
        push_token(&mut out, group_token(Delimiter::Brace, body));
        proof {
            assert(bv =~= seq![Tok::Literal(error_literal(*self))]);
            assert(toks_view(out@) =~= compile_error_tokens(*self));
        }
        out
    }
}

/// Appends the imports and lints in front of the closure of a `uix!` block.
fn prelude_to_tokens(out: &mut Vec<TokenTree>)
    ensures
        toks_view(final(out)@) == toks_view(old(out)@) + uix_prelude(),
{
    let ghost init = toks_view(out@);
    use_to_tokens(vec!["slate", "style", "StyleSheet"], false, out);
    use_to_tokens(vec!["slate", "style", "primitive"], true, out);
    use_to_tokens(vec!["slate", "style", "primitive", "Unit"], true, out);
    use_to_tokens(vec!["slate", "style", "property"], true, out);
    use_to_tokens(vec!["slate", "event", "EventPin"], true, out);
    allow_to_tokens("unnecessary_braces", out);
    allow_to_tokens("unused_braces", out);
    allow_to_tokens("unused_parens", out);
    proof {
        assert(words_view(seq!["slate", "style", "StyleSheet"]) =~= seq!["slate"@, "style"@, "StyleSheet"@]);
        assert(words_view(seq!["slate", "style", "primitive"]) =~= seq!["slate"@, "style"@, "primitive"@]);
        assert(words_view(seq!["slate", "style", "primitive", "Unit"])
            =~= seq!["slate"@, "style"@, "primitive"@, "Unit"@]);
        assert(words_view(seq!["slate", "style", "property"]) =~= seq!["slate"@, "style"@, "property"@]);
        assert(words_view(seq!["slate", "event", "EventPin"]) =~= seq!["slate"@, "event"@, "EventPin"@]);
        assert(toks_view(out@) =~= init + uix_prelude());
    }
}

/// Expands a `uix!` block: parses the markup, numbering its elements from
/// `idx`, and gives what it expands to and the next number. Markup that
/// cannot be parsed expands to the `compile_error!` that reports why, and
/// uses no number.
pub fn uix(tokens: Vec<TokenTree>, idx: usize) -> (r: (Vec<TokenTree>, usize))
    ensures
        match parse_block(toks_view(tokens@), idx) {
            Ok((b, i)) => toks_view(r.0@) == uix_tokens(b) && r.1 == i,
            Err(e) => toks_view(r.0@) == compile_error_tokens(e) && r.1 == idx,
        },
{
    let (block, next) = match UIxBlock::parse(tokens, idx) {
        Err(e) => {
            return (e.to_compile_error(), idx);
        },
        Ok(x) => x,
};
    let mut inner: Vec<TokenTree> = Vec::new();
    prelude_to_tokens(&mut inner);
    let ghost pv = toks_view(inner@);
    proof {
        assert(pv =~= uix_prelude());
    }
    push_token(&mut inner, ident_token("move"));
    push_token(&mut inner, alone_token('|'));
    push_token(&mut inner, ident_token("scaffold"));
    push_token(&mut inner, alone_token('|'));
    let mut body: Vec<TokenTree> = Vec::new();
    block.to_tokens(&mut body);
    push_token(&mut body, ident_token("Ok"));
    let mut unit: Vec<TokenTree> = Vec::new();
    push_token(&mut unit, empty_group(Delimiter::Parenthesis));
    push_token(&mut body, group_token(Delimiter::Parenthesis, unit));
    proof {
        assert(toks_view(body@) =~= Seq::<Tok>::empty() + block_tokens(block.view_block()) + ok_unit());
    }
    let ghost bv = toks_view(body@);
    push_token(&mut inner, group_token(Delimiter::Brace, body));
    let ghost iv = toks_view(inner@);
    proof {
        assert(iv =~= uix_prelude() + seq![
            word("move"@),
            alone('|'),
            word("scaffold"@),
            alone('|'),
            grp(Delimiter::Brace, bv),
        ]);
    }
    let mut out: Vec<TokenTree> = Vec::new();
    push_token(&mut out, group_token(Delimiter::Brace, inner));
    proof {
        assert(toks_view(out@) =~= uix_tokens(block.view_block()));
    }
    (out, next)
}

} // verus!
