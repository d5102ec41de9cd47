//! The tokens that the state machine emits when it hands control elsewhere.
use vstd::prelude::*;
use vstd::string::StringExecFns;
use crate::commands::{push_ident, push_punct};
use crate::decl::{DeclV, Declaration, decl_tokens};
use crate::rest::{RestV, TransformRest, named_tokens, push_named, rest_tokens};
use crate::tokens::{Delimiter, Spacing, Token, TokenV, extend_tokens, grouped, push_group, push_token, toks};

verus! {

pub open spec fn bang() -> Seq<TokenV> {
    seq![TokenV::Punct('!', Spacing::Alone)]
}

pub open spec fn fat_arrow() -> Seq<TokenV> {
    seq![TokenV::Punct('=', Spacing::Joint), TokenV::Punct('>', Spacing::Alone)]
}

pub open spec fn semi() -> Seq<TokenV> {
    seq![TokenV::Punct(';', Spacing::Alone)]
}

/// `::transtype::` followed by `path`.
pub open spec fn in_crate(path: Seq<TokenV>) -> Seq<TokenV> {
    seq![
        TokenV::Punct(':', Spacing::Joint),
        TokenV::Punct(':', Spacing::Alone),
        TokenV::Ident("transtype"@),
        TokenV::Punct(':', Spacing::Joint),
        TokenV::Punct(':', Spacing::Alone),
    ] + path
}

/// `::transtype::path!{}`: the mark that a built-in ran.
pub open spec fn builtin_marker(path: Seq<TokenV>) -> Seq<TokenV> {
    in_crate(path) + bang() + grouped(Delimiter::Brace, Seq::empty())
}

/// `path! { body }`.
pub open spec fn macro_call(path: Seq<TokenV>, body: Seq<TokenV>) -> Seq<TokenV> {
    path + bang() + grouped(Delimiter::Brace, body)
}

/// `data={d} args={args} rest={r}`.
pub open spec fn call_body(d: DeclV, args: Seq<TokenV>, r: RestV) -> Seq<TokenV> {
    named_tokens("data"@, decl_tokens(d)) + named_tokens("args"@, args) + named_tokens(
        "rest"@,
        rest_tokens(r),
    )
}

/// `path! { rest={r} }`.
pub open spec fn resume_tokens(path: Seq<TokenV>, r: RestV) -> Seq<TokenV> {
    macro_call(path, named_tokens("rest"@, rest_tokens(r)))
}

/// `macro_rules! DEBUG_name { () => {{ q }}; (@$visit:path) => { $visit!{ body } }; }`,
/// where `q` is a string literal.
pub open spec fn debug_tokens(name: Seq<char>, q: Seq<char>, body: Seq<TokenV>) -> Seq<TokenV> {
    seq![TokenV::Ident("macro_rules"@)] + bang() + seq![TokenV::Ident("DEBUG_"@ + name)] + grouped(
        Delimiter::Brace,
        grouped(Delimiter::Paren, Seq::empty()) + fat_arrow() + grouped(
            Delimiter::Brace,
            grouped(Delimiter::Brace, seq![TokenV::Literal(q)]),
        ) + semi() + grouped(
            Delimiter::Paren,
            seq![
                TokenV::Punct('@', Spacing::Alone),
                TokenV::Punct('$', Spacing::Alone),
                TokenV::Ident("visit"@),
                TokenV::Punct(':', Spacing::Alone),
                TokenV::Ident("path"@),
            ],
        ) + fat_arrow() + grouped(
            Delimiter::Brace,
            macro_call(seq![TokenV::Punct('$', Spacing::Alone), TokenV::Ident("visit"@)], body),
        ) + semi(),
    )
}

/// `$(...)*` around `c`.
pub open spec fn repeated(c: Seq<TokenV>) -> Seq<TokenV> {
    seq![TokenV::Punct('$', Spacing::Alone)] + grouped(Delimiter::Paren, c) + seq![
        TokenV::Punct('*', Spacing::Alone),
    ]
}

/// `macro_rules! name { ($($args:tt)*) => { ::transtype::__predefined! {
/// args={$($args)*} data={d} extra={extra} } }; }`
pub open spec fn save_tokens(d: DeclV, name: Seq<char>, extra: Seq<TokenV>) -> Seq<TokenV> {
    seq![TokenV::Ident("macro_rules"@)] + bang() + seq![TokenV::Ident(name)] + grouped(
        Delimiter::Brace,
        grouped(
            Delimiter::Paren,
            repeated(
                seq![
                    TokenV::Punct('$', Spacing::Alone),
                    TokenV::Ident("args"@),
                    TokenV::Punct(':', Spacing::Alone),
                    TokenV::Ident("tt"@),
                ],
            ),
        ) + fat_arrow() + grouped(
            Delimiter::Brace,
            macro_call(
                in_crate(seq![TokenV::Ident("__predefined"@)]),
                named_tokens(
                    "args"@,
                    repeated(seq![TokenV::Punct('$', Spacing::Alone), TokenV::Ident("args"@)]),
                ) + named_tokens("data"@, decl_tokens(d)) + named_tokens("extra"@, extra),
            ),
        ) + semi(),
    )
}

/// Appends `::transtype::` to `out`.
fn push_in_crate(out: &mut Vec<Token>)
    ensures
        toks(final(out)@) == toks(old(out)@) + in_crate(Seq::empty()),
{
    push_punct(out, ':', Spacing::Joint);
    push_punct(out, ':', Spacing::Alone);
    push_ident(out, "transtype");
    push_punct(out, ':', Spacing::Joint);
    push_punct(out, ':', Spacing::Alone);
    assert(toks(final(out)@) =~= toks(old(out)@) + in_crate(Seq::empty()));
}

/// The mark that the built-in at `path` ran.
pub fn builtin_marker_tokens(path: &Vec<Token>) -> (r: Vec<Token>)
    ensures
        toks(r@) == builtin_marker(toks(path@)),
{
    let mut r: Vec<Token> = Vec::new();
    push_in_crate(&mut r);
    let ghost a = toks(r@);
    extend_tokens(&mut r, path);
    assert(toks(r@) =~= in_crate(toks(path@)));
    push_punct(&mut r, '!', Spacing::Alone);
    let empty: Vec<Token> = Vec::new();
    push_group(&mut r, Delimiter::Brace, &empty);
    assert(toks(empty@) =~= Seq::<TokenV>::empty());
    assert(toks(r@) =~= builtin_marker(toks(path@)));
    r
}

/// `path` qualified by the crate: `::transtype::path`.
pub fn qualified(path: &Vec<Token>) -> (r: Vec<Token>)
    ensures
        toks(r@) == in_crate(toks(path@)),
{
    let mut r: Vec<Token> = Vec::new();
    push_in_crate(&mut r);
    extend_tokens(&mut r, path);
    assert(toks(r@) =~= in_crate(toks(path@)));
    r
}

/// `path! { data={d} args={args} rest={r} }`.
pub fn call_tokens(path: &Vec<Token>, d: &Declaration, args: &Vec<Token>, r: &TransformRest) -> (t: Vec<Token>)
    ensures
        toks(t@) == macro_call(toks(path@), call_body(d@, toks(args@), r@)),
{
    let mut body: Vec<Token> = Vec::new();
    let mut dt: Vec<Token> = Vec::new();
    d.to_tokens(&mut dt);
    let mut rt: Vec<Token> = Vec::new();
    r.to_tokens(&mut rt);
    push_named(&mut body, "data", &dt);
    push_named(&mut body, "args", args);
    push_named(&mut body, "rest", &rt);
    assert(toks(dt@) =~= decl_tokens(d@));
    assert(toks(rt@) =~= rest_tokens(r@));
    assert(toks(body@) =~= call_body(d@, toks(args@), r@));
    let mut t = crate::tokens::copy_tokens(path);
    push_punct(&mut t, '!', Spacing::Alone);
    push_group(&mut t, Delimiter::Brace, &body);
    assert(toks(t@) =~= macro_call(toks(path@), call_body(d@, toks(args@), r@)));
    t
}

/// `path! { rest={r} }`.
pub fn resume_call(path: &Vec<Token>, r: &TransformRest) -> (t: Vec<Token>)
    ensures
        toks(t@) == resume_tokens(toks(path@), r@),
{
    let mut rt: Vec<Token> = Vec::new();
    r.to_tokens(&mut rt);
    let mut body: Vec<Token> = Vec::new();
    push_named(&mut body, "rest", &rt);
    assert(toks(rt@) =~= rest_tokens(r@));
    assert(toks(body@) =~= named_tokens("rest"@, rest_tokens(r@)));
    let mut t = crate::tokens::copy_tokens(path);
    push_punct(&mut t, '!', Spacing::Alone);
    push_group(&mut t, Delimiter::Brace, &body);
    assert(toks(t@) =~= resume_tokens(toks(path@), r@));
    t
}

/// Appends `path! { body }` to `out`.
fn push_macro_call(out: &mut Vec<Token>, path: &Vec<Token>, body: &Vec<Token>)
    ensures
        toks(final(out)@) == toks(old(out)@) + macro_call(toks(path@), toks(body@)),
{
    let ghost s0 = toks(out@);
    extend_tokens(out, path);
    push_punct(out, '!', Spacing::Alone);
    push_group(out, Delimiter::Brace, body);
    assert(toks(out@) =~= s0 + macro_call(toks(path@), toks(body@)));
}

/// `data={d} args={args} rest={r}`, the tokens that the debugging macro dumps.
pub fn call_body_tokens(d: &Declaration, args: &Vec<Token>, r: &TransformRest) -> (body: Vec<Token>)
    ensures
        toks(body@) == call_body(d@, toks(args@), r@),
{
    let mut body: Vec<Token> = Vec::new();
    let mut dt: Vec<Token> = Vec::new();
    d.to_tokens(&mut dt);
    let mut rt: Vec<Token> = Vec::new();
    r.to_tokens(&mut rt);
    push_named(&mut body, "data", &dt);
    push_named(&mut body, "args", args);
    push_named(&mut body, "rest", &rt);
    assert(toks(dt@) =~= decl_tokens(d@));
    assert(toks(rt@) =~= rest_tokens(r@));
    assert(toks(body@) =~= call_body(d@, toks(args@), r@));
    body
}

/// The debugging macro of the declaration called `name`, whose first arm
/// gives the string literal `literal` and whose second hands `body` to a macro.
pub fn debug_macro(name: &String, literal: String, body: &Vec<Token>) -> (t: Vec<Token>)
    ensures
        toks(t@) == debug_tokens(name@, literal@, toks(body@)),
{
    let ghost q = literal@;
    let mut lit: Vec<Token> = Vec::new();
    push_token(&mut lit, Token::Literal(literal));
    let mut arm: Vec<Token> = Vec::new();
    push_group(&mut arm, Delimiter::Brace, &lit);
    let mut inner: Vec<Token> = Vec::new();
    let empty: Vec<Token> = Vec::new();
    assert(toks(empty@) =~= Seq::<TokenV>::empty());
    push_group(&mut inner, Delimiter::Paren, &empty);
    push_punct(&mut inner, '=', Spacing::Joint);
    push_punct(&mut inner, '>', Spacing::Alone);
    push_group(&mut inner, Delimiter::Brace, &arm);
    push_punct(&mut inner, ';', Spacing::Alone);
    let mut pat: Vec<Token> = Vec::new();
    push_punct(&mut pat, '@', Spacing::Alone);
    push_punct(&mut pat, '$', Spacing::Alone);
    push_ident(&mut pat, "visit");
    push_punct(&mut pat, ':', Spacing::Alone);
    push_ident(&mut pat, "path");
    push_group(&mut inner, Delimiter::Paren, &pat);
    push_punct(&mut inner, '=', Spacing::Joint);
    push_punct(&mut inner, '>', Spacing::Alone);
    let mut visit: Vec<Token> = Vec::new();
    push_punct(&mut visit, '$', Spacing::Alone);
    push_ident(&mut visit, "visit");
    assert(toks(visit@) =~= seq![TokenV::Punct('$', Spacing::Alone), TokenV::Ident("visit"@)]);
    let mut arm2: Vec<Token> = Vec::new();
    push_macro_call(&mut arm2, &visit, body);
    push_group(&mut inner, Delimiter::Brace, &arm2);
    push_punct(&mut inner, ';', Spacing::Alone);
    assert(toks(pat@) =~= seq![
        TokenV::Punct('@', Spacing::Alone),
        TokenV::Punct('$', Spacing::Alone),
        TokenV::Ident("visit"@),
        TokenV::Punct(':', Spacing::Alone),
        TokenV::Ident("path"@),
    ]);
    assert(toks(lit@) =~= seq![TokenV::Literal(q)]);
    let mut t: Vec<Token> = Vec::new();
    push_ident(&mut t, "macro_rules");
    push_punct(&mut t, '!', Spacing::Alone);
    let macro_name = "DEBUG_".to_owned().concat(name.as_str());
    push_token(&mut t, Token::Ident(macro_name));
    push_group(&mut t, Delimiter::Brace, &inner);
    assert(toks(t@) =~= debug_tokens(name@, q, toks(body@)));
    t
}

/// The macro that `save` defines.
pub fn save_call(d: &Declaration, name: String, extra: &Vec<Token>) -> (t: Vec<Token>)
    ensures
        toks(t@) == save_tokens(d@, name@, toks(extra@)),
{
    let mut tt: Vec<Token> = Vec::new();
    push_punct(&mut tt, '$', Spacing::Alone);
    push_ident(&mut tt, "args");
    push_punct(&mut tt, ':', Spacing::Alone);
    push_ident(&mut tt, "tt");
    let mut rep: Vec<Token> = Vec::new();
    push_punct(&mut rep, '$', Spacing::Alone);
    push_group(&mut rep, Delimiter::Paren, &tt);
    push_punct(&mut rep, '*', Spacing::Alone);
    let ghost tv = seq![
        TokenV::Punct('$', Spacing::Alone),
        TokenV::Ident("args"@),
        TokenV::Punct(':', Spacing::Alone),
        TokenV::Ident("tt"@),
    ];
    assert(toks(tt@) =~= tv);
    assert(toks(rep@) =~= repeated(tv));
    let mut a: Vec<Token> = Vec::new();
    push_punct(&mut a, '$', Spacing::Alone);
    push_ident(&mut a, "args");
    let mut arep: Vec<Token> = Vec::new();
    push_punct(&mut arep, '$', Spacing::Alone);
    push_group(&mut arep, Delimiter::Paren, &a);
    push_punct(&mut arep, '*', Spacing::Alone);
    let ghost av = seq![TokenV::Punct('$', Spacing::Alone), TokenV::Ident("args"@)];
    assert(toks(a@) =~= av);
    assert(toks(arep@) =~= repeated(av));
    let mut dt: Vec<Token> = Vec::new();
    d.to_tokens(&mut dt);
    assert(toks(dt@) =~= decl_tokens(d@));
    let mut body: Vec<Token> = Vec::new();
    push_named(&mut body, "args", &arep);
    push_named(&mut body, "data", &dt);
    push_named(&mut body, "extra", extra);
    let mut predefined: Vec<Token> = Vec::new();
    push_in_crate(&mut predefined);
    push_ident(&mut predefined, "__predefined");
    assert(toks(predefined@) =~= in_crate(seq![TokenV::Ident("__predefined"@)]));
    let mut call: Vec<Token> = Vec::new();
    push_macro_call(&mut call, &predefined, &body);
    let mut inner: Vec<Token> = Vec::new();
    push_group(&mut inner, Delimiter::Paren, &rep);
    push_punct(&mut inner, '=', Spacing::Joint);
    push_punct(&mut inner, '>', Spacing::Alone);
    push_group(&mut inner, Delimiter::Brace, &call);
    push_punct(&mut inner, ';', Spacing::Alone);
    let mut t: Vec<Token> = Vec::new();
    push_ident(&mut t, "macro_rules");
    push_punct(&mut t, '!', Spacing::Alone);
    push_token(&mut t, Token::Ident(name));
    push_group(&mut t, Delimiter::Brace, &inner);
    assert(toks(body@) =~= named_tokens("args"@, repeated(av)) + named_tokens("data"@, decl_tokens(d@))
        + named_tokens("extra"@, toks(extra@)));
    assert(toks(t@) =~= save_tokens(d@, name@, toks(extra@)));
    t
}

} // verus!
