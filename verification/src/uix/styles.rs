//! Style blocks: class blocks alone, each class becoming a closure that
//! pushes its style expressions onto a style sheet.
//!
//! ```text
//! .card, .wide { Padding(4), Width(80) }
//! .title { FontSize(24) }
//! ```
use vstd::prelude::*;

use crate::uix::emit::{
    alone, alone_token, grp, group_token, ident_of, ident_token, joint, push_token, word,
};
use crate::uix::expand::{
    compile_error_tokens, allow_to_tokens, allow_tokens, path_tokens, pushes_to_tokens, pushes_tokens, use_to_tokens,
    use_tokens, words_view,
};
use crate::uix::markup::{
    ClassStyles, ClassStylesV, add_class_block, add_class_styles, class_styles_view,
    parse_class_block, parse_class_styles,
};
use crate::uix::element::exprs_view;
use crate::uix::syntax::UIxError;
use crate::uix::token::{
    Delimiter, Spacing, Tok, TokenStream, TokenTree, is_group, punct_at, toks_view,
};

verus! {

/// The class blocks of `s`, after the classes in `acc`. A line that starts
/// with `#` and a bracketed group annotates what follows it and adds no
/// class; anything else that does not start a class block is an error.
pub open spec fn parse_styles_from(s: Seq<Tok>, acc: Seq<ClassStylesV>) -> Result<
    Seq<ClassStylesV>,
    UIxError,
>
    decreases s.len(),
{
    if s.len() == 0 {
        Ok(acc)
    } else if punct_at(s, 0, '.') {
        match parse_class_block(s) {
            Err(e) => Err(e),
            Ok((names, exprs, rest)) => if rest.len() < s.len() {
                parse_styles_from(rest, add_class_block(acc, names, exprs))
            } else {
                Err(UIxError::ExpectedGroup(Delimiter::Brace))
            },
        }
    } else if punct_at(s, 0, '#') && s.len() > 1 && is_group(s[1], Delimiter::Bracket) {
        parse_styles_from(s.skip(2), acc)
    } else {
        Err(UIxError::ExpectedPunct('.'))
    }
}

/// A whole style block.
pub open spec fn parse_styles(s: Seq<Tok>) -> Result<Seq<ClassStylesV>, UIxError> {
    parse_styles_from(s, Seq::empty())
}

/// The imports at the start of a class's closure.
pub open spec fn styles_prelude() -> Seq<Tok> {
    use_tokens(seq!["slate"@, "style"@, "primitive"@], true)
        + use_tokens(seq!["slate"@, "style"@, "primitive"@, "Unit"@], true)
        + use_tokens(seq!["slate"@, "style"@, "property"@], true)
        + use_tokens(seq!["slate"@, "event"@, "EventKind"@], true)
}

/// `#[allow(unnecessary_braces)] let name = move |stylesheet: &mut
/// slate::style::StyleSheet<'_>| { imports pushes };`
pub open spec fn styles_decl_tokens(c: ClassStylesV) -> Seq<Tok> {
    allow_tokens("unnecessary_braces"@) + seq![
        word("let"@),
        word(c.name),
        alone('='),
        word("move"@),
        alone('|'),
        word("stylesheet"@),
        alone(':'),
        alone('&'),
        word("mut"@),
    ] + path_tokens(seq!["slate"@, "style"@, "StyleSheet"@]) + seq![
        alone('<'),
        joint('\''),
        word("_"@),
        alone('>'),
        alone('|'),
        grp(Delimiter::Brace, styles_prelude() + pushes_tokens(c.exprs)),
        alone(';'),
    ]
}

/// The closures of all the classes, in order.
pub open spec fn styles_decls_tokens(cs: Seq<ClassStylesV>) -> Seq<Tok>
    decreases cs.len(),
{
    if cs.len() == 0 {
        Seq::empty()
    } else {
        styles_decls_tokens(cs.drop_last()) + styles_decl_tokens(cs.last())
    }
}

/// A block of class styles.
pub struct StylesBlock {
    styles: Vec<ClassStyles>,
}

impl StylesBlock {
    /// The style expressions of each class, in the order in which the
    /// classes first appear.
    pub closed spec fn view_styles(&self) -> Seq<ClassStylesV> {
        class_styles_view(self.styles@)
    }

    /// An empty block.
    pub fn new() -> (r: StylesBlock)
        ensures
            r.view_styles() == Seq::<ClassStylesV>::empty(),
    {
        let r = StylesBlock { styles: Vec::new() };
        proof {
            assert(r.view_styles() =~= Seq::<ClassStylesV>::empty());
        }
        r
    }

    /// The style expressions of each class.
    pub fn styles(&self) -> (r: &Vec<ClassStyles>)
        ensures
            class_styles_view(r@) == self.view_styles(),
    {
        &self.styles
    }

    /// Parses a style block: class blocks, each of which may be annotated
    /// by lines that start with `#`.
    pub fn parse(tokens: Vec<TokenTree>) -> (r: Result<StylesBlock, UIxError>)
        ensures
            match parse_styles(toks_view(tokens@)) {
                Ok(st) => r matches Ok(b) && b.view_styles() == st,
                Err(e) => r matches Err(f) && f == e,
            },
    {
        let ghost s0 = toks_view(tokens@);
        let mut ts = TokenStream::new(tokens);
        let mut block = StylesBlock::new();
        while !ts.is_empty()
            invariant
                s0 == toks_view(tokens@),
                parse_styles(s0) == parse_styles_from(ts@, block.view_styles()),
            decreases ts@.len(),
        {
            if !ts.peek_punct(0, '.') {
                if ts.peek_punct(0, '#') && ts.peek_group(1, Delimiter::Bracket) {
                    let ghost s = ts@;
                    let _annotation = ts.take(2);
                    proof {
                        assert(ts@ =~= s.skip(2));
                    }
                    continue;
                }
                return Err(UIxError::ExpectedPunct('.'));
            }
            match parse_class_styles(&mut ts) {
                Err(e) => {
                    return Err(e);
                },
                Ok((names, exprs)) => {
                    add_class_styles(&mut block.styles, &names, &exprs);
                },
            }
        }
        Ok(block)
    }

    /// Appends what the block expands to: a closure for each class, in the
    /// order in which the classes first appear.
    pub fn to_tokens(&self, tokens: &mut Vec<TokenTree>)
        ensures
            toks_view(final(tokens)@) == toks_view(old(tokens)@) + styles_decls_tokens(
                self.view_styles(),
            ),
    {
        let ghost init = toks_view(tokens@);
        let ghost cv = self.view_styles();
        let mut i: usize = 0;
        proof {
            assert(cv.take(0) =~= Seq::<ClassStylesV>::empty());
            assert(init + styles_decls_tokens(Seq::<ClassStylesV>::empty()) =~= init);
        }
        while i < self.styles.len()
            invariant
                i <= self.styles.len(),
                cv == self.view_styles(),
                toks_view(tokens@) == init + styles_decls_tokens(cv.take(i as int)),
            decreases self.styles.len() - i,
        {
            let c = &self.styles[i];
            styles_decl_to_tokens(c, tokens);
            proof {
                assert(cv[i as int] == (ClassStylesV { name: c.name@, exprs: exprs_view(c.exprs@) }));
                assert(cv.take(i + 1).drop_last() =~= cv.take(i as int));
                assert(init + styles_decls_tokens(cv.take(i as int)) + styles_decl_tokens(cv[i as int])
                    =~= init + styles_decls_tokens(cv.take(i + 1)));
            }
            i = i + 1;
        }
        proof {
            assert(cv.take(i as int) =~= cv);
        }
    }
}

/// The tokens of a path of three segments.
pub proof fn lemma_path_tokens3(a: Seq<char>, b: Seq<char>, c: Seq<char>)
    ensures
        path_tokens(seq![a, b, c]) == seq![
            word(a),
            joint(':'),
            alone(':'),
            word(b),
            joint(':'),
            alone(':'),
            word(c),
        ],
{
    let p = seq![a, b, c];
    assert(p.drop_last() =~= seq![a, b]);
    assert(seq![a, b].drop_last() =~= seq![a]);
    assert(path_tokens(seq![a]) =~= seq![word(a)]);
    assert(path_tokens(seq![a, b]) =~= seq![word(a), joint(':'), alone(':'), word(b)]);
}

/// Appends the closure of one class.
fn styles_decl_to_tokens(c: &ClassStyles, tokens: &mut Vec<TokenTree>)
    ensures
        toks_view(final(tokens)@) == toks_view(old(tokens)@) + styles_decl_tokens(
            ClassStylesV { name: c.name@, exprs: exprs_view(c.exprs@) },
        ),
{
    let ghost before = toks_view(tokens@);
    let mut body: Vec<TokenTree> = Vec::new();
    use_to_tokens(vec!["slate", "style", "primitive"], true, &mut body);
    use_to_tokens(vec!["slate", "style", "primitive", "Unit"], true, &mut body);
    use_to_tokens(vec!["slate", "style", "property"], true, &mut body);
    use_to_tokens(vec!["slate", "event", "EventKind"], true, &mut body);
    pushes_to_tokens(&c.exprs, &mut body);
    proof {
        assert(words_view(seq!["slate", "style", "primitive"]) =~= seq!["slate"@, "style"@, "primitive"@]);
        assert(words_view(seq!["slate", "style", "primitive", "Unit"])
            =~= seq!["slate"@, "style"@, "primitive"@, "Unit"@]);
        assert(words_view(seq!["slate", "style", "property"]) =~= seq!["slate"@, "style"@, "property"@]);
        assert(words_view(seq!["slate", "event", "EventKind"]) =~= seq!["slate"@, "event"@, "EventKind"@]);
        assert(toks_view(body@) =~= styles_prelude() + pushes_tokens(exprs_view(c.exprs@)));
    }
    let ghost bodyv = toks_view(body@);
    allow_to_tokens("unnecessary_braces", tokens);
    let ghost a1 = toks_view(tokens@);
    push_token(tokens, ident_token("let"));
    push_token(tokens, ident_of(&c.name));
    push_token(tokens, alone_token('='));
    push_token(tokens, ident_token("move"));
    push_token(tokens, alone_token('|'));
    push_token(tokens, ident_token("stylesheet"));
    push_token(tokens, alone_token(':'));
    push_token(tokens, alone_token('&'));
    push_token(tokens, ident_token("mut"));
    let ghost a2 = toks_view(tokens@);
    proof {
        assert(a2 =~= a1 + seq![
            word("let"@),
            word(c.name@),
            alone('='),
            word("move"@),
            alone('|'),
            word("stylesheet"@),
            alone(':'),
            alone('&'),
            word("mut"@),
        ]);
    }
    push_token(tokens, ident_token("slate"));
    push_token(tokens, TokenTree::Punct(':', Spacing::Joint));
    push_token(tokens, alone_token(':'));
    push_token(tokens, ident_token("style"));
    push_token(tokens, TokenTree::Punct(':', Spacing::Joint));
    push_token(tokens, alone_token(':'));
    push_token(tokens, ident_token("StyleSheet"));
    let ghost a3 = toks_view(tokens@);
    proof {
        lemma_path_tokens3("slate"@, "style"@, "StyleSheet"@);
        assert(a3 =~= a2 + path_tokens(seq!["slate"@, "style"@, "StyleSheet"@]));
    }
    push_token(tokens, alone_token('<'));
    push_token(tokens, TokenTree::Punct('\'', Spacing::Joint));
    push_token(tokens, ident_token("_"));
    push_token(tokens, alone_token('>'));
    push_token(tokens, alone_token('|'));
    push_token(tokens, group_token(Delimiter::Brace, body));
    push_token(tokens, alone_token(';'));
    proof {
        assert(toks_view(tokens@) =~= a3 + seq![
            alone('<'),
            joint('\''),
            word("_"@),
            alone('>'),
            alone('|'),
            grp(Delimiter::Brace, bodyv),
            alone(';'),
        ]);
        assert(toks_view(tokens@) =~= before + styles_decl_tokens(
            ClassStylesV { name: c.name@, exprs: exprs_view(c.exprs@) },
        ));
    }
}

/// Expands a `styles!` block: parses its class blocks and gives the
/// closures of its classes; a block that cannot be parsed expands to the
/// `compile_error!` that reports why.
pub fn styles(tokens: Vec<TokenTree>) -> (r: Vec<TokenTree>)
    ensures
        match parse_styles(toks_view(tokens@)) {
            Ok(st) => toks_view(r@) == styles_decls_tokens(st),
            Err(e) => toks_view(r@) == compile_error_tokens(e),
        },
{
    match StylesBlock::parse(tokens) {
        Err(e) => e.to_compile_error(),
        Ok(block) => {
            let mut out: Vec<TokenTree> = Vec::new();
            block.to_tokens(&mut out);
            proof {
                assert(toks_view(out@) =~= Seq::<Tok>::empty() + styles_decls_tokens(block.view_styles()));
            }
            out
        },
    }
}

} // verus!
