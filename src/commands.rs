//! What each built-in command does to the declaration.
use vstd::prelude::*;
use vstd::string::StringExecFns;
use crate::command::{
    CommandV, Path, PipeCommand, is_punct_char, parse_commands, parse_commands_exec, path_shaped,
};
use crate::decl::{
    AttrV, Attribute, Body, BodyV, DeclV, Declaration, Field, FieldV, Fields, FieldsV, Variant, VariantV,
    decl_tokens, views,
};
use crate::error::{Error, ErrorKind, ErrorV, err_v};
use crate::state::{ForkCommand, ForkV, forks_v, StateV, TransformState, pipe_v};
use crate::tokens::{
    Delimiter, Spacing, Token, TokenV, copy_range, copy_tokens, group_close, group_end, toks, push_token,
    extend_tokens,
};
use crate::decl::{ShapeV, TypeShape};
use crate::error::notation_v;

verus! {

/// The result of a command agrees with what is specified of it.
pub open spec fn agrees(r: Result<TransformState, Error>, s: Result<StateV, ErrorV>) -> bool {
    match (r, s) {
        (Ok(a), Ok(b)) => a@ == b,
        (Err(e), Err(f)) => e@ == f,
        _ => false,
    }
}

/// A single identifier, or `None`.
pub open spec fn single_ident(args: Seq<TokenV>) -> Option<Seq<char>> {
    if args.len() == 1 && args[0] is Ident {
        Some(args[0]->Ident_0)
    } else {
        None
    }
}

fn single_ident_exec(args: &Vec<Token>) -> (r: Option<String>)
    ensures
        match (r, single_ident(toks(args@))) {
            (Some(a), Some(b)) => a@ == b,
            (None, None) => true,
            _ => false,
        },
{
    if args.len() == 1 {
        assert(toks(args@)[0] == args@[0]@);
        match &args[0] {
            Token::Ident(n) => Some(n.clone()),
            _ => None,
        }
    } else {
        None
    }
}

/// `rename(name)`: the declaration takes the new name.
pub open spec fn rename_spec(d: DeclV, args: Seq<TokenV>) -> Result<StateV, ErrorV> {
    match single_ident(args) {
        Some(n) => Ok(pipe_v(DeclV { name: n, ..d })),
        None => Err(err_v(ErrorKind::Argument, "expected an identifier"@)),
    }
}

/// `finish()`: the declaration becomes its tokens.
pub open spec fn finish_spec(d: DeclV, args: Seq<TokenV>) -> Result<StateV, ErrorV> {
    if args.len() == 0 {
        Ok(StateV::Consume { data: decl_tokens(d) })
    } else {
        Err(err_v(ErrorKind::Argument, "unexpected token"@))
    }
}

/// `save()` or `save(name)`: define a macro that starts from the declaration.
pub open spec fn save_spec(d: DeclV, args: Seq<TokenV>) -> Result<StateV, ErrorV> {
    if args.len() == 0 {
        Ok(StateV::Save { data: d, name: None })
    } else {
        match single_ident(args) {
            Some(n) => Ok(StateV::Save { data: d, name: Some(n) }),
            None => Err(err_v(ErrorKind::Argument, "expected an identifier"@)),
        }
    }
}

/// `debug(args)`: dump the declaration, the arguments and the continuation.
pub open spec fn debug_spec(d: DeclV, args: Seq<TokenV>) -> StateV {
    StateV::Debug { data: d, args: Some(args) }
}

/// The command that `extend(path)` has the macro at `path` run on its declaration.
pub open spec fn extend_back(d: DeclV) -> CommandV {
    CommandV { path: seq![TokenV::Ident("extend"@)], args: seq![TokenV::Ident("as"@)] + decl_tokens(d) }
}

/// `extend(as ...)`: the arguments carry a declaration, which only the
/// command's own macro reads.
pub open spec fn extend_declines(args: Seq<TokenV>) -> bool {
    args.len() > 0 && args[0] == TokenV::Ident("as"@)
}

/// `extend(path)`: hand the declaration to the macro at `path`, which runs
/// `extend(as declaration)` on its own.
pub open spec fn extend_spec(d: DeclV, args: Seq<TokenV>) -> Result<StateV, ErrorV> {
    if args.len() > 0 && args[0] == TokenV::Ident("struct"@) {
        Err(err_v(ErrorKind::Argument, "extending with a struct literal is not supported"@))
    } else if path_shaped(args) {
        Ok(StateV::Resume { path: args, pipe: Some(seq![extend_back(d)]) })
    } else {
        Err(err_v(ErrorKind::Argument, "expected a path"@))
    }
}

/// The `rename` command.
pub struct Rename;

impl Rename {
    pub fn transform(data: Declaration, args: &Vec<Token>) -> (r: Result<TransformState, Error>)
        ensures
            agrees(r, rename_spec(data@, toks(args@))),
    {
        match single_ident_exec(args) {
            Some(n) => {
                let mut data = data;
                data.name = n;
                Ok(TransformState::pipe(data).build())
            },
            None => Err(Error::new(ErrorKind::Argument, "expected an identifier")),
        }
    }
}

/// The `finish` command.
pub struct Finish;

impl Finish {
    pub fn transform(data: Declaration, args: &Vec<Token>) -> (r: Result<TransformState, Error>)
        ensures
            agrees(r, finish_spec(data@, toks(args@))),
    {
        if args.len() == 0 {
            Ok(TransformState::consume(data.into_tokens()).build())
        } else {
            Err(Error::new(ErrorKind::Argument, "unexpected token"))
        }
    }
}

/// The `save` command.
pub struct Save;

impl Save {
    pub fn transform(data: Declaration, args: &Vec<Token>) -> (r: Result<TransformState, Error>)
        ensures
            agrees(r, save_spec(data@, toks(args@))),
    {
        if args.len() == 0 {
            Ok(TransformState::Save(TransformState::save(data)))
        } else {
            match single_ident_exec(args) {
                Some(n) => Ok(TransformState::Save(TransformState::save(data).name(n))),
                None => Err(Error::new(ErrorKind::Argument, "expected an identifier")),
            }
        }
    }
}

/// The `debug` command.
pub struct Debug;

impl Debug {
    pub fn transform(data: Declaration, args: &Vec<Token>) -> (r: TransformState)
        ensures
            r@ == debug_spec(data@, toks(args@)),
    {
        TransformState::debug(data).args(copy_tokens(args)).build()
    }
}

/// `extend(as dest)`, run on the declaration `src`: `dest` takes the named
/// fields of `src` after its own. Both must be structs with named fields.
pub open spec fn extend_as_spec(dest: DeclV, src: DeclV) -> Result<StateV, ErrorV> {
    match (dest.body, src.body) {
        (BodyV::Struct(FieldsV::Named(d)), BodyV::Struct(FieldsV::Named(s))) => Ok(
            pipe_v(DeclV { body: BodyV::Struct(FieldsV::Named(d + s)), ..dest }),
        ),
        _ => Err(err_v(ErrorKind::Shape, "only structs with named fields can be extended"@)),
    }
}

/// The `extend` command.
pub struct Extend;

impl Extend {
    /// Runs `extend(as dest)` on `src`.
    pub fn extend_as(dest: Declaration, src: Declaration) -> (r: Result<TransformState, Error>)
        ensures
            agrees(r, extend_as_spec(dest@, src@)),
    {
        let Declaration { attrs, vis, name, generics, where_clause, body } = dest;
        let mut fields = match body {
            Body::Struct(Fields::Named(f)) => f,
            _ => {
                return Err(Error::new(ErrorKind::Shape, "only structs with named fields can be extended"));
            },
        };
        let mut more = match src.body {
            Body::Struct(Fields::Named(f)) => f,
            _ => {
                return Err(Error::new(ErrorKind::Shape, "only structs with named fields can be extended"));
            },
        };
        let ghost a = views(fields@);
        let ghost b = views(more@);
        fields.append(&mut more);
        assert(views(fields@) =~= a + b);
        let data = Declaration { attrs, vis, name, generics, where_clause, body: Body::Struct(Fields::Named(fields)) };
        Ok(TransformState::pipe(data).build())
    }

    pub fn transform(data: Declaration, args: &Vec<Token>) -> (r: Result<TransformState, Error>)
        ensures
            agrees(r, extend_spec(data@, toks(args@))),
    {
        if args.len() > 0 && args[0].is_ident("struct") {
            assert(toks(args@)[0] == args@[0]@);
            return Err(Error::new(ErrorKind::Argument, "extending with a struct literal is not supported"));
        }
        proof {
            if args.len() > 0 {
                assert(toks(args@)[0] == args@[0]@);
            }
        }
        if Path::is_path(args) {
            let mut back_args: Vec<Token> = Vec::new();
            let as_kw = Token::ident("as");
            assert(as_kw@ == TokenV::Ident("as"@));
            push_token(&mut back_args, as_kw);
            assert(toks(back_args@) =~= seq![TokenV::Ident("as"@)]);
            data.to_tokens(&mut back_args);
            let kw = Token::ident("extend");
            assert(kw@ == TokenV::Ident("extend"@));
            let mut back_path: Vec<Token> = Vec::new();
            push_token(&mut back_path, kw);
            let back = PipeCommand::new(Path { tokens: back_path }, back_args);
            assert(back@ == extend_back(data@)) by {
                assert(toks(back_path@) =~= seq![TokenV::Ident("extend"@)]);
            }
            let mut pipe: Vec<PipeCommand> = Vec::new();
            pipe.push(back);
            let r = TransformState::resume(Path { tokens: copy_tokens(args) }).pipe(pipe).build();
            assert(crate::command::cmds_v(pipe@) =~= seq![extend_back(data@)]);
            Ok(r)
        } else {
            Err(Error::new(ErrorKind::Argument, "expected a path"))
        }
    }
}

/// A name pattern: `_` or a name.
#[derive(Debug, PartialEq, Eq)]
pub enum WildName {
    Wild,
    Name(String),
}

pub enum WildV {
    Wild,
    Name(Seq<char>),
}

impl View for WildName {
    type V = WildV;

    open spec fn view(&self) -> WildV {
        match self {
            WildName::Wild => WildV::Wild,
            WildName::Name(n) => WildV::Name(n@),
        }
    }
}

/// `name` or `name as rename`.
#[derive(Debug, PartialEq, Eq)]
pub struct Selector {
    pub name: WildName,
    pub rename: Option<WildName>,
}

pub struct SelectorV {
    pub name: WildV,
    pub rename: Option<WildV>,
}

impl View for Selector {
    type V = SelectorV;

    open spec fn view(&self) -> SelectorV {
        SelectorV {
            name: self.name@,
            rename: match self.rename {
                Some(w) => Some(w@),
                None => None,
            },
        }
    }
}

/// Selectors separated by commas.
#[derive(Debug, PartialEq, Eq)]
pub struct Selectors(pub Vec<Selector>);

impl View for Selectors {
    type V = Seq<SelectorV>;

    open spec fn view(&self) -> Seq<SelectorV> {
        views(self.0@)
    }
}

/// What the first selector that matches `name` makes of it: a new name, or
/// `None` when it drops it. A name that no selector matches is dropped.
pub open spec fn select(sels: Seq<SelectorV>, name: Seq<char>) -> Option<Seq<char>>
    decreases sels.len(),
{
    if sels.len() == 0 {
        None
    } else {
        match sels[0].name {
            WildV::Wild => Some(name),
            WildV::Name(p) => if p == name {
                match sels[0].rename {
                    Some(WildV::Name(r)) => Some(r),
                    None => Some(name),
                    Some(WildV::Wild) => None,
                }
            } else {
                select(sels.drop_first(), name)
            },
        }
    }
}

/// The name pattern at `pos`.
pub open spec fn wild_at(s: Seq<TokenV>, pos: int) -> Option<WildV> {
    if 0 <= pos < s.len() && s[pos] is Ident {
        let n = s[pos]->Ident_0;
        if n == "_"@ {
            Some(WildV::Wild)
        } else {
            Some(WildV::Name(n))
        }
    } else {
        None
    }
}

/// Reads the selector at `pos`, and where it ends.
pub open spec fn parse_selector(s: Seq<TokenV>, pos: int) -> Result<(SelectorV, int), ErrorV> {
    match wild_at(s, pos) {
        None => Err(err_v(ErrorKind::Argument, "expected a name or `_`"@)),
        Some(w) => if pos + 1 < s.len() && s[pos + 1] == TokenV::Ident("as"@) {
            match wild_at(s, pos + 2) {
                None => Err(err_v(ErrorKind::Argument, "expected a name or `_`"@)),
                Some(r) => Ok((SelectorV { name: w, rename: Some(r) }, pos + 3)),
            }
        } else {
            Ok((SelectorV { name: w, rename: None }, pos + 1))
        },
    }
}

/// Reads selectors separated by commas, with an optional trailing comma,
/// from `pos` to the end.
pub open spec fn parse_selectors(s: Seq<TokenV>, pos: int) -> Result<Seq<SelectorV>, ErrorV>
    decreases s.len() - pos,
{
    if pos < 0 || pos >= s.len() {
        Ok(Seq::empty())
    } else {
        match parse_selector(s, pos) {
            Err(e) => Err(e),
            Ok((sel, n)) => if n >= s.len() {
                Ok(seq![sel])
            } else if !is_punct_char(s[n], ',') {
                Err(err_v(ErrorKind::Argument, "expected `,`"@))
            } else {
                match parse_selectors(s, n + 1) {
                    Err(e) => Err(e),
                    Ok(rest) => Ok(seq![sel] + rest),
                }
            },
        }
    }
}

fn wild_at_exec(v: &Vec<Token>, pos: usize) -> (r: Option<WildName>)
    ensures
        match (r, wild_at(toks(v@), pos as int)) {
            (Some(a), Some(b)) => a@ == b,
            (None, None) => true,
            _ => false,
        },
{
    if pos < v.len() {
        assert(toks(v@)[pos as int] == v@[pos as int]@);
        match &v[pos] {
            Token::Ident(n) => {
                if *n == "_".to_owned() {
                    Some(WildName::Wild)
                } else {
                    Some(WildName::Name(n.clone()))
                }
            },
            _ => None,
        }
    } else {
        None
    }
}

impl Selectors {
    /// Reads selectors from the arguments of a command.
    pub fn parse(v: &Vec<Token>) -> (r: Result<Selectors, Error>)
        ensures
            match (r, parse_selectors(toks(v@), 0)) {
                (Ok(a), Ok(b)) => a@ == b,
                (Err(e), Err(f)) => e@ == f,
                _ => false,
            },
    {
        let ghost s = toks(v@);
        let mut out: Vec<Selector> = Vec::new();
        let mut pos: usize = 0;
        while pos < v.len()
            invariant
                pos <= v.len(),
                s == toks(v@),
                parse_selectors(s, 0) == match parse_selectors(s, pos as int) {
                    Ok(rest) => Ok(views(out@) + rest),
                    Err(e) => Err::<Seq<SelectorV>, ErrorV>(e),
                },
            decreases v.len() - pos,
        {
            let name = match wild_at_exec(v, pos) {
                Some(w) => w,
                None => {
                    return Err(Error::new(ErrorKind::Argument, "expected a name or `_`"));
                },
            };
            let n: usize;
            let sel: Selector;
            if v.len() - pos > 1 && v[pos + 1].is_ident("as") {
                assert(s[pos + 1] == v@[pos + 1]@);
                match wild_at_exec(v, pos + 2) {
                    Some(w) => {
                        sel = Selector { name, rename: Some(w) };
                        n = pos + 3;
                    },
                    None => {
                        return Err(Error::new(ErrorKind::Argument, "expected a name or `_`"));
                    },
                }
            } else {
                proof {
                    if v.len() - pos > 1 {
                        assert(s[pos + 1] == v@[pos + 1]@);
                    }
                }
                sel = Selector { name, rename: None };
                n = pos + 1;
            }
            assert(parse_selector(s, pos as int) == Ok::<(SelectorV, int), ErrorV>((sel@, n as int)));
            let ghost before = out@;
            out.push(sel);
            assert(views(out@) =~= views(before).push(sel@));
            if n >= v.len() {
                assert(views(before) + seq![sel@] =~= views(out@) + Seq::<SelectorV>::empty());
                pos = v.len();
            } else {
                assert(s[n as int] == v@[n as int]@);
                if !v[n].is_punct(',') {
                    return Err(Error::new(ErrorKind::Argument, "expected `,`"));
                }
                proof {
                    match parse_selectors(s, n + 1) {
                        Ok(rest) => {
                            assert(views(before) + (seq![sel@] + rest) =~= views(out@) + rest);
                        },
                        Err(_) => {},
                    }
                }
                pos = n + 1;
            }
        }
        assert(views(out@) + Seq::<SelectorV>::empty() =~= views(out@));
        Ok(Selectors(out))
    }

    /// What the selectors make of `name`.
    pub fn select(&self, name: &String) -> (r: Option<String>)
        ensures
            match (r, select(self@, name@)) {
                (Some(a), Some(b)) => a@ == b,
                (None, None) => true,
                _ => false,
            },
    {
        let mut i: usize = 0;
        assert(self@.skip(0) =~= self@);
        while i < self.0.len()
            invariant
                i <= self.0.len(),
                select(self@, name@) == select(self@.skip(i as int), name@),
            decreases self.0.len() - i,
        {
            let ghost rest = self@.skip(i as int);
            assert(rest[0] == self.0@[i as int]@);
            assert(rest.drop_first() =~= self@.skip(i + 1));
            let sel = &self.0[i];
            match &sel.name {
                WildName::Wild => {
                    return Some(name.clone());
                },
                WildName::Name(p) => {
                    if *p == *name {
                        match &sel.rename {
                            Some(WildName::Name(r)) => {
                                return Some(r.clone());
                            },
                            None => {
                                return Some(name.clone());
                            },
                            Some(WildName::Wild) => {
                                return None;
                            },
                        }
                    }
                },
            }
            i = i + 1;
        }
        None
    }
}

/// The fields that the selectors keep, renamed; a field without a name is kept.
pub open spec fn select_fields(sels: Seq<SelectorV>, fs: Seq<FieldV>) -> Seq<FieldV>
    decreases fs.len(),
{
    if fs.len() == 0 {
        Seq::empty()
    } else {
        let rest = select_fields(sels, fs.drop_last());
        let f = fs.last();
        match f.name {
            None => rest.push(f),
            Some(n) => match select(sels, n) {
                Some(r) => rest.push(FieldV { name: Some(r), ..f }),
                None => rest,
            },
        }
    }
}

pub open spec fn select_in_fields(sels: Seq<SelectorV>, f: FieldsV) -> FieldsV {
    match f {
        FieldsV::Named(s) => FieldsV::Named(select_fields(sels, s)),
        FieldsV::Unnamed(s) => FieldsV::Unnamed(select_fields(sels, s)),
        FieldsV::Unit => FieldsV::Unit,
    }
}

pub open spec fn select_variant(sels: Seq<SelectorV>, v: VariantV) -> VariantV {
    VariantV { fields: select_in_fields(sels, v.fields), ..v }
}

pub open spec fn attr_variant(sels: Seq<SelectorV>, v: VariantV) -> VariantV {
    VariantV { fields: attrs_in_fields(sels, v.fields), ..v }
}

pub open spec fn attr_field(sels: Seq<SelectorV>, f: FieldV) -> FieldV {
    FieldV { attrs: select_attrs(sels, f.attrs), ..f }
}

/// `select(selectors)`: keep the fields that the selectors keep, in every
/// struct, variant and union, renamed as they say.
pub open spec fn select_body(sels: Seq<SelectorV>, b: BodyV) -> BodyV {
    match b {
        BodyV::Struct(f) => BodyV::Struct(select_in_fields(sels, f)),
        BodyV::Enum(vs) => BodyV::Enum(vs.map_values(|v: VariantV| select_variant(sels, v))),
        BodyV::Union(s) => BodyV::Union(select_fields(sels, s)),
    }
}

pub open spec fn select_spec(d: DeclV, args: Seq<TokenV>) -> Result<StateV, ErrorV> {
    match parse_selectors(args, 0) {
        Err(e) => Err(e),
        Ok(sels) => Ok(pipe_v(DeclV { body: select_body(sels, d.body), ..d })),
    }
}

fn select_field_vec(sels: &Selectors, fs: Vec<Field>) -> (r: Vec<Field>)
    ensures
        views(r@) == select_fields(sels@, views(fs@)),
{
    let mut fs = fs;
    let ghost orig = views(fs@);
    let mut kept: Vec<Field> = Vec::new();
    let mut rev: Vec<Field> = Vec::new();
    while fs.len() > 0
        invariant
            views(fs@) + views(rev@).reverse() == orig,
        decreases fs.len(),
    {
        let ghost before = fs@;
        let f = fs.pop().unwrap();
        proof {
            assert(views(before) =~= views(fs@).push(f@));
            assert(views(rev@.push(f)).reverse() =~= seq![f@] + views(rev@).reverse());
            assert(views(fs@) + views(rev@.push(f)).reverse() =~= views(before) + views(rev@).reverse());
        }
        rev.push(f);
    }
    assert(views(rev@).reverse() =~= orig);
    while rev.len() > 0
        invariant
            views(kept@) == select_fields(sels@, orig.take(orig.len() - rev.len())),
            views(rev@).reverse() == orig.skip(orig.len() - rev.len()),
            rev.len() <= orig.len(),
        decreases rev.len(),
    {
        let ghost k = orig.len() - rev.len();
        let ghost before = rev@;
        let mut f = rev.pop().unwrap();
        proof {
            assert(views(before).reverse()[0] == f@);
            assert(orig.skip(k)[0] == orig[k]);
            assert(f@ == orig[k]);
            assert(views(rev@).reverse() =~= orig.skip(k + 1)) by {
                assert(views(before) =~= views(rev@).push(f@));
                assert(orig.skip(k + 1) =~= orig.skip(k).drop_first());
            }
            assert(orig.take(k + 1).drop_last() =~= orig.take(k));
            assert(orig.take(k + 1).last() == orig[k]);
        }
        let ghost kb = kept@;
        match &f.name {
            None => {
                kept.push(f);
                assert(views(kept@) =~= views(kb).push(f@));
            },
            Some(name) => {
                match sels.select(name) {
                    Some(r) => {
                        let ghost f0 = f@;
                        f.name = Some(r);
                        kept.push(f);
                        assert(views(kept@) =~= views(kb).push(FieldV { name: Some(r@), ..f0 }));
                    },
                    None => {},
                }
            },
        }
    }
    assert(orig.take(orig.len() as int) =~= orig);
    kept
}

/// The fields of each variant, with `f` applied to them.
pub open spec fn variants_with(vs: Seq<VariantV>, f: spec_fn(FieldsV) -> FieldsV) -> Seq<VariantV> {
    vs.map_values(|v: VariantV| VariantV { fields: f(v.fields), ..v })
}

fn select_in_fields_exec(sels: &Selectors, f: Fields) -> (r: Fields)
    ensures
        r@ == select_in_fields(sels@, f@),
{
    match f {
        Fields::Named(v) => Fields::Named(select_field_vec(sels, v)),
        Fields::Unnamed(v) => Fields::Unnamed(select_field_vec(sels, v)),
        Fields::Unit => Fields::Unit,
    }
}

fn select_body_exec(sels: &Selectors, b: Body) -> (r: Body)
    ensures
        r@ == select_body(sels@, b@),
{
    match b {
        Body::Struct(f) => Body::Struct(select_in_fields_exec(sels, f)),
        Body::Union(v) => Body::Union(select_field_vec(sels, v)),
        Body::Enum(vs) => {
            let ghost orig = views(vs@);
            let mut vs = vs;
            let mut out: Vec<Variant> = Vec::new();
            while vs.len() > 0
                invariant
                    orig.len() == out.len() + vs.len(),
                    views(out@) == orig.take(out.len() as int).map_values(|v: VariantV| select_variant(sels@, v)),
                    views(vs@) == orig.skip(out.len() as int),
                decreases vs.len(),
            {
                let ghost k = out.len() as int;
                let ghost before = vs@;
                let v = vs.remove(0);
                assert(views(vs@) =~= views(before).drop_first());
                assert(v@ == orig[k]) by {
                    assert(orig.skip(k)[0] == orig[k]);
                }
                let Variant { attrs, name, fields, discriminant } = v;
                let nv = Variant { attrs, name, fields: select_in_fields_exec(sels, fields), discriminant };
                let ghost ob = out@;
                out.push(nv);
                proof {
                    assert(nv@.attrs == orig[k].attrs);
                    assert(nv@.name == orig[k].name);
                    assert(nv@.discriminant == orig[k].discriminant);
                    assert(select_variant(sels@, orig[k]).fields == nv@.fields);
                    assert(select_variant(sels@, orig[k]) == nv@);
                    assert(views(out@) =~= views(ob).push(nv@));
                    assert(orig.take(k + 1).map_values(|v: VariantV| select_variant(sels@, v)) =~= orig.take(k).map_values(|v: VariantV| select_variant(sels@, v)).push(select_variant(sels@, orig[k])));
                    assert(views(vs@) =~= orig.skip(k + 1));
                }
            }
            assert(orig.take(orig.len() as int) =~= orig);
            assert(views(out@) =~= orig.map_values(|v: VariantV| select_variant(sels@, v)));
            Body::Enum(out)
        },
    }
}

/// The `select` command.
pub struct Select;

impl Select {
    pub fn transform(data: Declaration, args: &Vec<Token>) -> (r: Result<TransformState, Error>)
        ensures
            agrees(r, select_spec(data@, toks(args@))),
    {
        let sels = Selectors::parse(args)?;
        let Declaration { attrs, vis, name, generics, where_clause, body } = data;
        let body = select_body_exec(&sels, body);
        let data = Declaration { attrs, vis, name, generics, where_clause, body };
        Ok(TransformState::pipe(data).build())
    }
}

/// The attributes that the selectors keep, renamed. An attribute whose path
/// is more than one identifier is kept as it is.
pub open spec fn select_attrs(sels: Seq<SelectorV>, attrs: Seq<AttrV>) -> Seq<AttrV>
    decreases attrs.len(),
{
    if attrs.len() == 0 {
        Seq::empty()
    } else {
        let rest = select_attrs(sels, attrs.drop_last());
        let a = attrs.last();
        match single_ident(a.path) {
            None => rest.push(a),
            Some(n) => match select(sels, n) {
                Some(r) => rest.push(AttrV { path: seq![TokenV::Ident(r)], ..a }),
                None => rest,
            },
        }
    }
}

pub open spec fn field_attrs(sels: Seq<SelectorV>, fs: Seq<FieldV>) -> Seq<FieldV> {
    fs.map_values(|f: FieldV| attr_field(sels, f))
}

pub open spec fn attrs_in_fields(sels: Seq<SelectorV>, f: FieldsV) -> FieldsV {
    match f {
        FieldsV::Named(s) => FieldsV::Named(field_attrs(sels, s)),
        FieldsV::Unnamed(s) => FieldsV::Unnamed(field_attrs(sels, s)),
        FieldsV::Unit => FieldsV::Unit,
    }
}

pub open spec fn select_attr_body(sels: Seq<SelectorV>, b: BodyV) -> BodyV {
    match b {
        BodyV::Struct(f) => BodyV::Struct(attrs_in_fields(sels, f)),
        BodyV::Enum(vs) => BodyV::Enum(vs.map_values(|v: VariantV| attr_variant(sels, v))),
        BodyV::Union(s) => BodyV::Union(field_attrs(sels, s)),
    }
}

/// `select_attr(selectors)`: keep the attributes of the declaration and of
/// its fields that the selectors keep, renamed as they say.
pub open spec fn select_attr_spec(d: DeclV, args: Seq<TokenV>) -> Result<StateV, ErrorV> {
    match parse_selectors(args, 0) {
        Err(e) => Err(e),
        Ok(sels) => Ok(
            pipe_v(DeclV { attrs: select_attrs(sels, d.attrs), body: select_attr_body(sels, d.body), ..d }),
        ),
    }
}

fn select_attr_vec(sels: &Selectors, attrs: Vec<Attribute>) -> (r: Vec<Attribute>)
    ensures
        views(r@) == select_attrs(sels@, views(attrs@)),
{
    let ghost orig = views(attrs@);
    let mut attrs = attrs;
    let mut out: Vec<Attribute> = Vec::new();
    let mut k: usize = 0;
    assert(orig.skip(0) =~= orig);
    assert(orig.len() == attrs.len());
    while attrs.len() > 0
        invariant
            orig.len() == k + attrs.len(),
            orig.len() <= usize::MAX,
            views(out@) == select_attrs(sels@, orig.take(k as int)),
            views(attrs@) == orig.skip(k as int),
        decreases attrs.len(),
    {
        let ghost before = attrs@;
        let a = attrs.remove(0);
        assert(views(attrs@) =~= views(before).drop_first());
        proof {
            assert(orig.skip(k as int)[0] == orig[k as int]);
            assert(orig.take(k + 1).drop_last() =~= orig.take(k as int));
            assert(orig.take(k + 1).last() == orig[k as int]);
            assert(views(attrs@) =~= orig.skip(k + 1));
        }
        let ghost ob = out@;
        match single_ident_exec(&a.path.tokens) {
            None => {
                out.push(a);
                assert(views(out@) =~= views(ob).push(orig[k as int]));
            },
            Some(n) => {
                match sels.select(&n) {
                    Some(r) => {
                        let mut p: Vec<Token> = Vec::new();
                        push_token(&mut p, Token::Ident(r));
                        let na = Attribute { path: Path { tokens: p }, tokens: a.tokens };
                        out.push(na);
                        assert(toks(p@) =~= seq![TokenV::Ident(r@)]);
                        assert(views(out@) =~= views(ob).push(na@));
                    },
                    None => {},
                }
            },
        }
        k = k + 1;
    }
    assert(orig.take(k as int) =~= orig);
    out
}

fn field_attrs_vec(sels: &Selectors, fs: Vec<Field>) -> (r: Vec<Field>)
    ensures
        views(r@) == field_attrs(sels@, views(fs@)),
{
    let ghost orig = views(fs@);
    let mut fs = fs;
    let mut out: Vec<Field> = Vec::new();
    while fs.len() > 0
        invariant
            orig.len() == out.len() + fs.len(),
            views(out@) == orig.take(out.len() as int).map_values(|f: FieldV| attr_field(sels@, f)),
            views(fs@) == orig.skip(out.len() as int),
        decreases fs.len(),
    {
        let ghost k = out.len() as int;
        let ghost before = fs@;
        let f = fs.remove(0);
        assert(views(fs@) =~= views(before).drop_first());
        assert(f@ == orig[k]) by {
            assert(orig.skip(k)[0] == orig[k]);
        }
        let Field { attrs, vis, name, ty, shape } = f;
        let nf = Field { attrs: select_attr_vec(sels, attrs), vis, name, ty, shape };
        let ghost ob = out@;
        out.push(nf);
        proof {
            assert(attr_field(sels@, orig[k]) == nf@);
            assert(views(out@) =~= views(ob).push(nf@));
            assert(orig.take(k + 1).map_values(|f: FieldV| attr_field(sels@, f)) =~= orig.take(k).map_values(|f: FieldV| attr_field(sels@, f)).push(attr_field(sels@, orig[k])));
            assert(views(fs@) =~= orig.skip(k + 1));
        }
    }
    assert(orig.take(orig.len() as int) =~= orig);
    assert(views(out@) =~= field_attrs(sels@, orig));
    out
}

fn attrs_in_fields_exec(sels: &Selectors, f: Fields) -> (r: Fields)
    ensures
        r@ == attrs_in_fields(sels@, f@),
{
    match f {
        Fields::Named(v) => Fields::Named(field_attrs_vec(sels, v)),
        Fields::Unnamed(v) => Fields::Unnamed(field_attrs_vec(sels, v)),
        Fields::Unit => Fields::Unit,
    }
}

fn select_attr_body_exec(sels: &Selectors, b: Body) -> (r: Body)
    ensures
        r@ == select_attr_body(sels@, b@),
{
    match b {
        Body::Struct(f) => Body::Struct(attrs_in_fields_exec(sels, f)),
        Body::Union(v) => Body::Union(field_attrs_vec(sels, v)),
        Body::Enum(vs) => {
            let ghost orig = views(vs@);
            let mut vs = vs;
            let mut out: Vec<Variant> = Vec::new();
            while vs.len() > 0
                invariant
                    orig.len() == out.len() + vs.len(),
                    views(out@) == orig.take(out.len() as int).map_values(|v: VariantV| attr_variant(sels@, v)),
                    views(vs@) == orig.skip(out.len() as int),
                decreases vs.len(),
            {
                let ghost k = out.len() as int;
                let ghost before = vs@;
                let v = vs.remove(0);
                assert(views(vs@) =~= views(before).drop_first());
                assert(v@ == orig[k]) by {
                    assert(orig.skip(k)[0] == orig[k]);
                }
                let Variant { attrs, name, fields, discriminant } = v;
                let nv = Variant { attrs, name, fields: attrs_in_fields_exec(sels, fields), discriminant };
                let ghost ob = out@;
                out.push(nv);
                proof {
                    assert(nv@.attrs == orig[k].attrs);
                    assert(nv@.name == orig[k].name);
                    assert(nv@.discriminant == orig[k].discriminant);
                    assert(attr_variant(sels@, orig[k]).fields == nv@.fields);
                    assert(attr_variant(sels@, orig[k]) == nv@);
                    assert(views(out@) =~= views(ob).push(nv@));
                    assert(orig.take(k + 1).map_values(|v: VariantV| attr_variant(sels@, v)) =~= orig.take(k).map_values(|v: VariantV| attr_variant(sels@, v)).push(attr_variant(sels@, orig[k])));
                    assert(views(vs@) =~= orig.skip(k + 1));
                }
            }
            assert(orig.take(orig.len() as int) =~= orig);
            assert(views(out@) =~= orig.map_values(|v: VariantV| attr_variant(sels@, v)));
            Body::Enum(out)
        },
    }
}

/// The `select_attr` command.
pub struct SelectAttr;

impl SelectAttr {
    pub fn transform(data: Declaration, args: &Vec<Token>) -> (r: Result<TransformState, Error>)
        ensures
            agrees(r, select_attr_spec(data@, toks(args@))),
    {
        let sels = Selectors::parse(args)?;
        let Declaration { attrs, vis, name, generics, where_clause, body } = data;
        let attrs = select_attr_vec(&sels, attrs);
        let body = select_attr_body_exec(&sels, body);
        let data = Declaration { attrs, vis, name, generics, where_clause, body };
        Ok(TransformState::pipe(data).build())
    }
}

/// `name::<ty>`.
pub open spec fn wrap_type(n: Seq<char>, ty: Seq<TokenV>) -> Seq<TokenV> {
    seq![
        TokenV::Ident(n),
        TokenV::Punct(':', Spacing::Joint),
        TokenV::Punct(':', Spacing::Alone),
        TokenV::Punct('<', Spacing::Alone),
    ] + ty + seq![TokenV::Punct('>', Spacing::Alone)]
}

/// A field whose type is a path wraps it in `n`, unless the path already
/// starts with `n`; other types stay as they are.
pub open spec fn wrap_field(n: Seq<char>, f: FieldV) -> FieldV {
    match f.shape {
        ShapeV::Path { leading_colon, first } => if !leading_colon && first == n {
            f
        } else {
            FieldV {
                ty: wrap_type(n, f.ty),
                shape: ShapeV::Path { leading_colon: false, first: n },
                ..f
            }
        },
        ShapeV::Other => f,
    }
}

pub open spec fn wrap_fields(n: Seq<char>, f: FieldsV) -> FieldsV {
    match f {
        FieldsV::Named(s) => FieldsV::Named(s.map_values(|x: FieldV| wrap_field(n, x))),
        FieldsV::Unnamed(s) => FieldsV::Unnamed(s.map_values(|x: FieldV| wrap_field(n, x))),
        FieldsV::Unit => FieldsV::Unit,
    }
}

/// `wrap(name)`: the type of each field of a struct is wrapped in `name`.
pub open spec fn wrap_spec(d: DeclV, args: Seq<TokenV>) -> Result<StateV, ErrorV> {
    match single_ident(args) {
        None => Err(err_v(ErrorKind::Argument, "expected an identifier"@)),
        Some(n) => match d.body {
            BodyV::Struct(f) => Ok(pipe_v(DeclV { body: BodyV::Struct(wrap_fields(n, f)), ..d })),
            _ => Err(err_v(ErrorKind::Shape, "only struct is supported now"@)),
        },
    }
}

fn wrap_field_exec(n: &String, f: Field) -> (r: Field)
    ensures
        r@ == wrap_field(n@, f@),
{
    let skip = match &f.shape {
        TypeShape::Path { leading_colon, first } => !*leading_colon && *first == *n,
        TypeShape::Other => true,
    };
    if skip {
        f
    } else {
        let Field { attrs, vis, name, ty, shape } = f;
        let mut nt: Vec<Token> = Vec::new();
        push_token(&mut nt, Token::Ident(n.clone()));
        push_token(&mut nt, Token::Punct(':', Spacing::Joint));
        push_token(&mut nt, Token::Punct(':', Spacing::Alone));
        push_token(&mut nt, Token::Punct('<', Spacing::Alone));
        let ghost m = toks(nt@);
        extend_tokens(&mut nt, &ty);
        assert(toks(nt@) =~= m + toks(ty@));
        push_token(&mut nt, Token::Punct('>', Spacing::Alone));
        assert(toks(nt@) =~= wrap_type(n@, toks(ty@)));
        Field {
            attrs,
            vis,
            name,
            ty: nt,
            shape: TypeShape::Path { leading_colon: false, first: n.clone() },
        }
    }
}

fn wrap_field_vec(n: &String, fs: Vec<Field>) -> (r: Vec<Field>)
    ensures
        views(r@) == views(fs@).map_values(|x: FieldV| wrap_field(n@, x)),
{
    let ghost orig = views(fs@);
    let mut fs = fs;
    let mut out: Vec<Field> = Vec::new();
    while fs.len() > 0
        invariant
            orig.len() == out.len() + fs.len(),
            views(out@) == orig.take(out.len() as int).map_values(|x: FieldV| wrap_field(n@, x)),
            views(fs@) == orig.skip(out.len() as int),
        decreases fs.len(),
    {
        let ghost k = out.len() as int;
        let ghost before = fs@;
        let f = fs.remove(0);
        assert(views(fs@) =~= views(before).drop_first());
        assert(f@ == orig[k]) by {
            assert(orig.skip(k)[0] == orig[k]);
        }
        let nf = wrap_field_exec(n, f);
        let ghost ob = out@;
        out.push(nf);
        proof {
            assert(views(out@) =~= views(ob).push(nf@));
            assert(orig.take(k + 1).map_values(|x: FieldV| wrap_field(n@, x)) =~= orig.take(k).map_values(
                |x: FieldV| wrap_field(n@, x),
            ).push(wrap_field(n@, orig[k])));
            assert(views(fs@) =~= orig.skip(k + 1));
        }
    }
    assert(orig.take(orig.len() as int) =~= orig);
    out
}

/// The `wrap` command.
pub struct Wrap;

impl Wrap {
    pub fn transform(data: Declaration, args: &Vec<Token>) -> (r: Result<TransformState, Error>)
        ensures
            agrees(r, wrap_spec(data@, toks(args@))),
    {
        let n = match single_ident_exec(args) {
            Some(n) => n,
            None => {
                return Err(Error::new(ErrorKind::Argument, "expected an identifier"));
            },
        };
        let Declaration { attrs, vis, name, generics, where_clause, body } = data;
        let fields = match body {
            Body::Struct(f) => f,
            _ => {
                return Err(Error::new(ErrorKind::Shape, "only struct is supported now"));
            },
        };
        let fields = match fields {
            Fields::Named(v) => Fields::Named(wrap_field_vec(&n, v)),
            Fields::Unnamed(v) => Fields::Unnamed(wrap_field_vec(&n, v)),
            Fields::Unit => Fields::Unit,
        };
        let data = Declaration { attrs, vis, name, generics, where_clause, body: Body::Struct(fields) };
        Ok(TransformState::pipe(data).build())
    }
}

/// Reads the branches of a fork, `name={commands}` one after the other, from `pos`.
pub open spec fn parse_forks(s: Seq<TokenV>, pos: int) -> Result<Seq<ForkV>, ErrorV>
    decreases s.len() - pos,
{
    if pos < 0 || pos >= s.len() {
        Ok(Seq::empty())
    } else if !(s[pos] is Ident) {
        Err(err_v(ErrorKind::Argument, "expected a branch name"@))
    } else if !(pos + 2 < s.len() && is_punct_char(s[pos + 1], '=') && s[pos + 2] == TokenV::Open(
        Delimiter::Brace,
    )) {
        Err(err_v(ErrorKind::Argument, "expected `={`"@))
    } else {
        match group_close(s, pos + 2) {
            None => Err(notation_v("unclosed group"@)),
            Some(e) => if e <= pos || s[e] != TokenV::Close(Delimiter::Brace) {
                Err(notation_v("mismatched delimiter"@))
            } else {
                match parse_commands(s.subrange(pos + 3, e), 0) {
                    Err(x) => Err(x),
                    Ok(cs) => match parse_forks(s, e + 1) {
                        Err(x) => Err(x),
                        Ok(rest) => Ok(seq![ForkV { name: s[pos]->Ident_0, pipe: cs }] + rest),
                    },
                }
            },
        }
    }
}

pub fn parse_forks_exec(v: &Vec<Token>) -> (r: Result<Vec<ForkCommand>, Error>)
    ensures
        match (r, parse_forks(toks(v@), 0)) {
            (Ok(a), Ok(b)) => forks_v(a@) == b,
            (Err(e), Err(f)) => e@ == f,
            _ => false,
        },
{
    let ghost s = toks(v@);
    let mut out: Vec<ForkCommand> = Vec::new();
    let mut pos: usize = 0;
    while pos < v.len()
        invariant
            pos <= v.len(),
            s == toks(v@),
            parse_forks(s, 0) == match parse_forks(s, pos as int) {
                Ok(rest) => Ok(forks_v(out@) + rest),
                Err(e) => Err::<Seq<ForkV>, ErrorV>(e),
            },
        decreases v.len() - pos,
    {
        assert(s[pos as int] == v@[pos as int]@);
        let name = match &v[pos] {
            Token::Ident(n) => n.clone(),
            _ => {
                return Err(Error::new(ErrorKind::Argument, "expected a branch name"));
            },
        };
        if !(v.len() - pos > 2 && v[pos + 1].is_punct('=') && v[pos + 2].is_open(Delimiter::Brace)) {
            proof {
                if v.len() - pos > 2 {
                    assert(s[pos + 1] == v@[pos + 1]@);
                    assert(s[pos + 2] == v@[pos + 2]@);
                }
            }
            return Err(Error::new(ErrorKind::Argument, "expected `={`"));
        }
        proof {
            assert(s[pos + 1] == v@[pos + 1]@);
            assert(s[pos + 2] == v@[pos + 2]@);
        }
        let e = match group_end(v, pos + 2) {
            None => {
                return Err(Error::new(ErrorKind::Notation, "unclosed group"));
            },
            Some(e) => e,
        };
        assert(s[e as int] == v@[e as int]@);
        if e <= pos || !v[e].is_close(Delimiter::Brace) {
            return Err(Error::new(ErrorKind::Notation, "mismatched delimiter"));
        }
        let content = copy_range(v, pos + 3, e);
        assert(toks(content@) == s.subrange(pos + 3, e as int));
        let cmds = parse_commands_exec(&content)?;
        let fc = ForkCommand { name, pipe: cmds };
        proof {
            match parse_forks(s, e + 1) {
                Ok(rest) => {
                    assert(forks_v(out@.push(fc)) =~= forks_v(out@).push(fc@));
                    assert(forks_v(out@) + (seq![fc@] + rest) =~= forks_v(out@).push(fc@) + rest);
                },
                Err(_) => {},
            }
        }
        out.push(fc);
        pos = e + 1;
    }
    assert(forks_v(out@) + Seq::<ForkV>::empty() =~= forks_v(out@));
    Ok(out)
}

/// The decimal digit `d`.
pub open spec fn digit(d: nat) -> char {
    if d == 0 {
        '0'
    } else if d == 1 {
        '1'
    } else if d == 2 {
        '2'
    } else if d == 3 {
        '3'
    } else if d == 4 {
        '4'
    } else if d == 5 {
        '5'
    } else if d == 6 {
        '6'
    } else if d == 7 {
        '7'
    } else if d == 8 {
        '8'
    } else {
        '9'
    }
}

/// The decimal notation of `n`.
pub open spec fn decimal(n: nat) -> Seq<char>
    decreases n,
{
    if n < 10 {
        seq![digit(n)]
    } else {
        decimal(n / 10) + seq![digit(n % 10)]
    }
}

fn digit_str(d: usize) -> (r: &'static str)
    requires
        d < 10,
    ensures
        r@ == seq![digit(d as nat)],
{
    if d == 0 {
        proof { reveal_strlit("0"); }
        "0"
    } else if d == 1 {
        proof { reveal_strlit("1"); }
        "1"
    } else if d == 2 {
        proof { reveal_strlit("2"); }
        "2"
    } else if d == 3 {
        proof { reveal_strlit("3"); }
        "3"
    } else if d == 4 {
        proof { reveal_strlit("4"); }
        "4"
    } else if d == 5 {
        proof { reveal_strlit("5"); }
        "5"
    } else if d == 6 {
        proof { reveal_strlit("6"); }
        "6"
    } else if d == 7 {
        proof { reveal_strlit("7"); }
        "7"
    } else if d == 8 {
        proof { reveal_strlit("8"); }
        "8"
    } else {
        proof { reveal_strlit("9"); }
        "9"
    }
}

/// The decimal notation of `n`.
pub fn decimal_string(n: usize) -> (r: String)
    ensures
        r@ == decimal(n as nat),
    decreases n,
{
    if n < 10 {
        digit_str(n).to_owned()
    } else {
        decimal_string(n / 10).concat(digit_str(n % 10))
    }
}

/// `::transtype::x`.
pub open spec fn crate_path(x: Seq<char>) -> Seq<TokenV> {
    seq![
        TokenV::Punct(':', Spacing::Joint),
        TokenV::Punct(':', Spacing::Alone),
        TokenV::Ident("transtype"@),
        TokenV::Punct(':', Spacing::Joint),
        TokenV::Punct(':', Spacing::Alone),
        TokenV::Ident(x),
    ]
}

pub fn push_ident(out: &mut Vec<Token>, s: &str)
    ensures
        toks(final(out)@) == toks(old(out)@).push(TokenV::Ident(s@)),
{
    push_token(out, Token::ident(s));
}

pub fn push_punct(out: &mut Vec<Token>, c: char, sp: Spacing)
    ensures
        toks(final(out)@) == toks(old(out)@).push(TokenV::Punct(c, sp)),
{
    push_token(out, Token::Punct(c, sp));
}

/// Appends `::transtype::x` to `out`.
pub fn push_crate_path(out: &mut Vec<Token>, x: &str)
    ensures
        toks(final(out)@) == toks(old(out)@) + crate_path(x@),
{
    push_punct(out, ':', Spacing::Joint);
    push_punct(out, ':', Spacing::Alone);
    push_ident(out, "transtype");
    push_punct(out, ':', Spacing::Joint);
    push_punct(out, ':', Spacing::Alone);
    push_ident(out, x);
    assert(toks(final(out)@) =~= toks(old(out)@) + crate_path(x@));
}

/// How the field at position `i` is reached from `self`.
pub open spec fn member(f: FieldV, i: int) -> TokenV {
    match f.name {
        Some(n) => TokenV::Ident(n),
        None => TokenV::Literal(decimal(i as nat)),
    }
}

/// `name:` for a named field, nothing otherwise.
pub open spec fn field_label(f: FieldV) -> Seq<TokenV> {
    match f.name {
        Some(n) => seq![TokenV::Ident(n), TokenV::Punct(':', Spacing::Alone)],
        None => Seq::empty(),
    }
}

/// `name: ::transtype::Wrapper::unwrap(self.name),` or, without a name,
/// `::transtype::Wrapper::unwrap(self.i),`.
pub open spec fn unwrap_field(f: FieldV, i: int) -> Seq<TokenV> {
    field_label(f) + crate_path("Wrapper"@) + seq![
        TokenV::Punct(':', Spacing::Joint),
        TokenV::Punct(':', Spacing::Alone),
        TokenV::Ident("unwrap"@),
    ] + grouped_paren(seq![TokenV::Ident("self"@), TokenV::Punct('.', Spacing::Alone), member(f, i)])
        + seq![TokenV::Punct(',', Spacing::Alone)]
}

pub open spec fn grouped_paren(c: Seq<TokenV>) -> Seq<TokenV> {
    crate::tokens::grouped(Delimiter::Paren, c)
}

pub open spec fn unwrap_fields(fs: Seq<FieldV>) -> Seq<TokenV>
    decreases fs.len(),
{
    if fs.len() == 0 {
        Seq::empty()
    } else {
        unwrap_fields(fs.drop_last()) + unwrap_field(fs.last(), fs.len() - 1)
    }
}

/// The expression that builds the original value from the wrapped fields.
pub open spec fn wrapped_body(f: FieldsV) -> Seq<TokenV> {
    match f {
        FieldsV::Named(s) => crate::tokens::grouped(Delimiter::Brace, unwrap_fields(s)),
        FieldsV::Unnamed(s) => grouped_paren(unwrap_fields(s)),
        FieldsV::Unit => Seq::empty(),
    }
}

/// `type Original = from; fn unwrap(self) -> Self::Original { from body }`.
pub open spec fn wrapped_items(from: Seq<TokenV>, body: Seq<TokenV>) -> Seq<TokenV> {
    seq![TokenV::Ident("type"@), TokenV::Ident("Original"@), TokenV::Punct('=', Spacing::Alone)]
        + from + seq![
        TokenV::Punct(';', Spacing::Alone),
        TokenV::Ident("fn"@),
        TokenV::Ident("unwrap"@),
    ] + grouped_paren(seq![TokenV::Ident("self"@)]) + seq![
        TokenV::Punct('-', Spacing::Joint),
        TokenV::Punct('>', Spacing::Alone),
        TokenV::Ident("Self"@),
        TokenV::Punct(':', Spacing::Joint),
        TokenV::Punct(':', Spacing::Alone),
        TokenV::Ident("Original"@),
    ] + crate::tokens::grouped(Delimiter::Brace, from + body)
}

/// `impl ::transtype::Wrapped for name { items }`.
pub open spec fn wrapped_impl(name: Seq<char>, from: Seq<TokenV>, f: FieldsV) -> Seq<TokenV> {
    seq![TokenV::Ident("impl"@)] + crate_path("Wrapped"@) + seq![
        TokenV::Ident("for"@),
        TokenV::Ident(name),
    ] + crate::tokens::grouped(Delimiter::Brace, wrapped_items(from, wrapped_body(f)))
}

fn push_wrapped_items(items: &mut Vec<Token>, args: &Vec<Token>, body: &Vec<Token>)
    ensures
        toks(final(items)@) == toks(old(items)@) + wrapped_items(toks(args@), toks(body@)),
{
    let ghost s0 = toks(items@);
    push_ident(items, "type");
    push_ident(items, "Original");
    push_punct(items, '=', Spacing::Alone);
    let ghost i0 = toks(items@);
    extend_tokens(items, args);
    assert(toks(items@) =~= i0 + toks(args@));
    push_punct(items, ';', Spacing::Alone);
    push_ident(items, "fn");
    push_ident(items, "unwrap");
    let ghost i1 = toks(items@);
    let mut this: Vec<Token> = Vec::new();
    push_ident(&mut this, "self");
    assert(toks(this@) =~= seq![TokenV::Ident("self"@)]);
    crate::tokens::push_group(items, Delimiter::Paren, &this);
    push_punct(items, '-', Spacing::Joint);
    push_punct(items, '>', Spacing::Alone);
    push_ident(items, "Self");
    push_punct(items, ':', Spacing::Joint);
    push_punct(items, ':', Spacing::Alone);
    push_ident(items, "Original");
    let ghost i2 = toks(items@);
    assert(i2 =~= i1 + grouped_paren(seq![TokenV::Ident("self"@)]) + seq![
        TokenV::Punct('-', Spacing::Joint),
        TokenV::Punct('>', Spacing::Alone),
        TokenV::Ident("Self"@),
        TokenV::Punct(':', Spacing::Joint),
        TokenV::Punct(':', Spacing::Alone),
        TokenV::Ident("Original"@),
    ]);
    let mut fn_body = copy_tokens(args);
    extend_tokens(&mut fn_body, body);
    crate::tokens::push_group(items, Delimiter::Brace, &fn_body);
    assert(toks(fn_body@) =~= toks(args@) + toks(body@));
    assert(toks(items@) =~= s0 + wrapped_items(toks(args@), toks(body@)));
}

/// `wrapped(type)`: the declaration stays, and an impl of `Wrapped` that
/// unwraps each field back into `type` is added to the extra tokens.
pub open spec fn wrapped_spec(d: DeclV, args: Seq<TokenV>) -> Result<StateV, ErrorV> {
    if !crate::text::is_type(args) {
        Err(err_v(ErrorKind::Argument, "expected a type"@))
    } else {
        match d.body {
            BodyV::Struct(f) => Ok(
                StateV::Pipe {
                    data: d,
                    pipe: None,
                    extra: Some(wrapped_impl(d.name, args, f)),
                    marker: None,
                },
            ),
            _ => Err(err_v(ErrorKind::Shape, "only struct is supported now"@)),
        }
    }
}

fn push_unwrap_fields(out: &mut Vec<Token>, fs: &Vec<Field>)
    ensures
        toks(final(out)@) == toks(old(out)@) + unwrap_fields(views(fs@)),
{
    let mut i: usize = 0;
    while i < fs.len()
        invariant
            i <= fs.len(),
            toks(out@) == toks(old(out)@) + unwrap_fields(views(fs@).take(i as int)),
        decreases fs.len() - i,
    {
        let ghost s0 = toks(out@);
        let f = &fs[i];
        match &f.name {
            Some(n) => {
                push_token(out, Token::Ident(n.clone()));
                push_punct(out, ':', Spacing::Alone);
            },
            None => {},
        }
        let ghost s1 = toks(out@);
        assert(s1 =~= s0 + field_label(f@));
        push_crate_path(out, "Wrapper");
        push_punct(out, ':', Spacing::Joint);
        push_punct(out, ':', Spacing::Alone);
        push_ident(out, "unwrap");
        let mut inner: Vec<Token> = Vec::new();
        push_ident(&mut inner, "self");
        push_punct(&mut inner, '.', Spacing::Alone);
        let m = match &f.name {
            Some(n) => Token::Ident(n.clone()),
            None => Token::Literal(decimal_string(i)),
        };
        push_token(&mut inner, m);
        assert(toks(inner@) =~= seq![
            TokenV::Ident("self"@),
            TokenV::Punct('.', Spacing::Alone),
            member(f@, i as int),
        ]);
        let ghost s2 = toks(out@);
        crate::tokens::push_group(out, Delimiter::Paren, &inner);
        push_punct(out, ',', Spacing::Alone);
        proof {
            let t = views(fs@).take(i + 1);
            assert(t.drop_last() =~= views(fs@).take(i as int));
            assert(t.last() == f@);
            assert(toks(out@) =~= s0 + unwrap_field(f@, i as int));
        }
        i = i + 1;
    }
    assert(views(fs@).take(fs.len() as int) =~= views(fs@));
}

/// The `wrapped` command.
pub struct Wrapped;

impl Wrapped {
    pub fn transform(data: Declaration, args: &Vec<Token>) -> (r: Result<TransformState, Error>)
        ensures
            agrees(r, wrapped_spec(data@, toks(args@))),
    {
        if !crate::text::is_type_exec(args) {
            return Err(Error::new(ErrorKind::Argument, "expected a type"));
        }
        let fields = match &data.body {
            Body::Struct(f) => f,
            _ => {
                return Err(Error::new(ErrorKind::Shape, "only struct is supported now"));
            },
        };
        let mut body: Vec<Token> = Vec::new();
        match fields {
            Fields::Named(v) => {
                let mut inner: Vec<Token> = Vec::new();
                push_unwrap_fields(&mut inner, v);
                crate::tokens::push_group(&mut body, Delimiter::Brace, &inner);
            },
            Fields::Unnamed(v) => {
                let mut inner: Vec<Token> = Vec::new();
                push_unwrap_fields(&mut inner, v);
                crate::tokens::push_group(&mut body, Delimiter::Paren, &inner);
            },
            Fields::Unit => {},
        }
        assert(toks(body@) =~= wrapped_body(fields@));
        let mut items: Vec<Token> = Vec::new();
        push_wrapped_items(&mut items, args, &body);
        assert(toks(items@) =~= wrapped_items(toks(args@), wrapped_body(fields@)));
        let mut extra: Vec<Token> = Vec::new();
        push_ident(&mut extra, "impl");
        push_crate_path(&mut extra, "Wrapped");
        push_ident(&mut extra, "for");
        push_token(&mut extra, Token::Ident(data.name.clone()));
        let ghost e0 = toks(extra@);
        crate::tokens::push_group(&mut extra, Delimiter::Brace, &items);
        assert(toks(extra@) =~= wrapped_impl(data@.name, toks(args@), fields@));
        Ok(TransformState::pipe(data).extra(extra).build())
    }
}

} // verus!
