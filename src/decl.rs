//! The declaration that a pipeline rewrites, and its tokens.
use vstd::prelude::*;
use crate::command::Path;
use crate::tokens::{
    Delimiter, Spacing, Token, TokenV, copy_tokens, extend_tokens, grouped, push_group, push_token, toks,
};

verus! {

/// A value that can be copied, with the same view.
pub trait Duplicate: View + Sized {
    fn duplicate(&self) -> (r: Self)
        ensures
            r@ == self@,
    ;
}

/// A value that has tokens: `render` appends `spec_tokens` of the view.
pub trait Render: View + Sized {
    spec fn spec_tokens(v: Self::V) -> Seq<TokenV>;

    fn render(&self, out: &mut Vec<Token>)
        ensures
            toks(final(out)@) == toks(old(out)@) + Self::spec_tokens(self@),
    ;
}

/// The views of the items of a sequence.
pub open spec fn views<T: View>(v: Seq<T>) -> Seq<T::V> {
    v.map_values(|x: T| x@)
}

/// The tokens of the items of a sequence, one after the other.
pub open spec fn list_tokens<T: Render>(s: Seq<T::V>) -> Seq<TokenV>
    decreases s.len(),
{
    if s.len() == 0 {
        Seq::empty()
    } else {
        list_tokens::<T>(s.drop_last()) + T::spec_tokens(s.last())
    }
}

/// The tokens of the items of a sequence, separated by commas.
pub open spec fn sep_tokens<T: Render>(s: Seq<T::V>) -> Seq<TokenV>
    decreases s.len(),
{
    if s.len() == 0 {
        Seq::empty()
    } else if s.len() == 1 {
        T::spec_tokens(s[0])
    } else {
        sep_tokens::<T>(s.drop_last()) + seq![TokenV::Punct(',', Spacing::Alone)] + T::spec_tokens(
            s.last(),
        )
    }
}

/// Appends the tokens of each item of `v`, in order and separated by commas, to `out`.
pub fn render_sep<T: Render>(v: &Vec<T>, out: &mut Vec<Token>)
    ensures
        toks(final(out)@) == toks(old(out)@) + sep_tokens::<T>(views(v@)),
{
    let mut i: usize = 0;
    while i < v.len()
        invariant
            i <= v.len(),
            toks(out@) == toks(old(out)@) + sep_tokens::<T>(views(v@).take(i as int)),
        decreases v.len() - i,
    {
        let ghost s0 = toks(out@);
        if i > 0 {
            push_token(out, Token::Punct(',', Spacing::Alone));
        }
        let ghost s1 = toks(out@);
        v[i].render(out);
        proof {
            let t = views(v@).take(i + 1);
            assert(t.drop_last() =~= views(v@).take(i as int));
            assert(t.last() == v@[i as int]@);
            if i == 0 {
                assert(t.len() == 1);
                assert(t[0] == v@[0]@);
                assert(toks(old(out)@) + sep_tokens::<T>(views(v@).take(0)) == s0);
                assert(views(v@).take(0) =~= Seq::<T::V>::empty());
                assert(s0 =~= toks(old(out)@));
                assert(toks(out@) =~= toks(old(out)@) + sep_tokens::<T>(t));
            } else {
                assert(toks(out@) =~= toks(old(out)@) + sep_tokens::<T>(t));
            }
        }
        i = i + 1;
    }
    assert(views(v@).take(v.len() as int) =~= views(v@));
}

/// A copy of each item of `v`.
pub fn dup_vec<T: Duplicate>(v: &Vec<T>) -> (r: Vec<T>)
    ensures
        views(r@) == views(v@),
{
    let mut r: Vec<T> = Vec::new();
    let mut i: usize = 0;
    while i < v.len()
        invariant
            i <= v.len(),
            views(r@) == views(v@).take(i as int),
        decreases v.len() - i,
    {
        let x = v[i].duplicate();
        let ghost before = r@;
        r.push(x);
        assert(views(r@) =~= views(before).push(x@));
        i = i + 1;
        assert(views(v@).take(i as int) =~= views(v@).take(i - 1).push(v@[i - 1]@));
    }
    assert(views(v@).take(v.len() as int) =~= views(v@));
    r
}

/// Appends the tokens of each item of `v`, in order, to `out`.
pub fn render_list<T: Render>(v: &Vec<T>, out: &mut Vec<Token>)
    ensures
        toks(final(out)@) == toks(old(out)@) + list_tokens::<T>(views(v@)),
{
    let mut i: usize = 0;
    while i < v.len()
        invariant
            i <= v.len(),
            toks(out@) == toks(old(out)@) + list_tokens::<T>(views(v@).take(i as int)),
        decreases v.len() - i,
    {
        v[i].render(out);
        proof {
            let t = views(v@).take(i + 1);
            assert(t.drop_last() =~= views(v@).take(i as int));
            assert(t.last() == v@[i as int]@);
        }
        i = i + 1;
    }
    assert(views(v@).take(v.len() as int) =~= views(v@));
}

/// An outer attribute, `#[path tokens]`.
#[derive(Debug, PartialEq, Eq)]
pub struct Attribute {
    pub path: Path,
    pub tokens: Vec<Token>,
}

pub struct AttrV {
    pub path: Seq<TokenV>,
    pub tokens: Seq<TokenV>,
}

impl View for Attribute {
    type V = AttrV;

    open spec fn view(&self) -> AttrV {
        AttrV { path: self.path@, tokens: toks(self.tokens@) }
    }
}

impl Duplicate for Attribute {
    fn duplicate(&self) -> (r: Self) {
        Attribute { path: self.path.duplicate(), tokens: copy_tokens(&self.tokens) }
    }
}

impl Render for Attribute {
    open spec fn spec_tokens(v: AttrV) -> Seq<TokenV> {
        seq![TokenV::Punct('#', Spacing::Alone)] + grouped(Delimiter::Bracket, v.path + v.tokens)
    }

    fn render(&self, out: &mut Vec<Token>) {
        push_token(out, Token::Punct('#', Spacing::Alone));
        let mut inner = copy_tokens(&self.path.tokens);
        extend_tokens(&mut inner, &self.tokens);
        push_group(out, Delimiter::Bracket, &inner);
        assert(toks(inner@) =~= self.path@ + toks(self.tokens@));
        assert(toks(final(out)@) =~= toks(old(out)@) + Self::spec_tokens(self@));
    }
}

/// What the logic reads of a field's type: whether it is a path type, and
/// then whether it starts with `::` and its first segment.
#[derive(Debug, PartialEq, Eq)]
pub enum TypeShape {
    Path { leading_colon: bool, first: String },
    Other,
}

pub enum ShapeV {
    Path { leading_colon: bool, first: Seq<char> },
    Other,
}

impl View for TypeShape {
    type V = ShapeV;

    open spec fn view(&self) -> ShapeV {
        match self {
            TypeShape::Path { leading_colon, first } => ShapeV::Path {
                leading_colon: *leading_colon,
                first: first@,
            },
            TypeShape::Other => ShapeV::Other,
        }
    }
}

impl Duplicate for TypeShape {
    fn duplicate(&self) -> (r: Self) {
        match self {
            TypeShape::Path { leading_colon, first } => TypeShape::Path {
                leading_colon: *leading_colon,
                first: first.clone(),
            },
            TypeShape::Other => TypeShape::Other,
        }
    }
}

/// A field: `attrs vis name: ty`, or `attrs vis ty` in a tuple.
#[derive(Debug, PartialEq, Eq)]
pub struct Field {
    pub attrs: Vec<Attribute>,
    pub vis: Vec<Token>,
    pub name: Option<String>,
    pub ty: Vec<Token>,
    pub shape: TypeShape,
}

pub struct FieldV {
    pub attrs: Seq<AttrV>,
    pub vis: Seq<TokenV>,
    pub name: Option<Seq<char>>,
    pub ty: Seq<TokenV>,
    pub shape: ShapeV,
}

impl View for Field {
    type V = FieldV;

    open spec fn view(&self) -> FieldV {
        FieldV {
            attrs: views(self.attrs@),
            vis: toks(self.vis@),
            name: match self.name {
                Some(n) => Some(n@),
                None => None,
            },
            ty: toks(self.ty@),
            shape: self.shape@,
        }
    }
}

impl Duplicate for Field {
    fn duplicate(&self) -> (r: Self) {
        Field {
            attrs: dup_vec(&self.attrs),
            vis: copy_tokens(&self.vis),
            name: match &self.name {
                Some(n) => Some(n.clone()),
                None => None,
            },
            ty: copy_tokens(&self.ty),
            shape: self.shape.duplicate(),
        }
    }
}

impl Render for Field {
    open spec fn spec_tokens(v: FieldV) -> Seq<TokenV> {
        list_tokens::<Attribute>(v.attrs) + v.vis + match v.name {
            Some(n) => seq![TokenV::Ident(n), TokenV::Punct(':', Spacing::Alone)],
            None => Seq::empty(),
        } + v.ty
    }

    fn render(&self, out: &mut Vec<Token>) {
        let ghost s0 = toks(out@);
        render_list(&self.attrs, out);
        let ghost s1 = toks(out@);
        assert(s1 == s0 + list_tokens::<Attribute>(self@.attrs));
        extend_tokens(out, &self.vis);
        let ghost s2 = toks(out@);
        assert(s2 =~= s1 + self@.vis);
        match &self.name {
            Some(n) => {
                push_token(out, Token::Ident(n.clone()));
                push_token(out, Token::Punct(':', Spacing::Alone));
            },
            None => {},
        }
        assert(toks(out@) =~= s2 + match self@.name {
            Some(n) => seq![TokenV::Ident(n), TokenV::Punct(':', Spacing::Alone)],
            None => Seq::<TokenV>::empty(),
        });
        let ghost s3 = toks(out@);
        extend_tokens(out, &self.ty);
        assert(toks(out@) =~= s3 + self@.ty);
        assert(toks(final(out)@) =~= s0 + Self::spec_tokens(self@));
    }
}

/// The fields of a struct or of a variant.
#[derive(Debug, PartialEq, Eq)]
pub enum Fields {
    Named(Vec<Field>),
    Unnamed(Vec<Field>),
    Unit,
}

pub enum FieldsV {
    Named(Seq<FieldV>),
    Unnamed(Seq<FieldV>),
    Unit,
}

impl View for Fields {
    type V = FieldsV;

    open spec fn view(&self) -> FieldsV {
        match self {
            Fields::Named(v) => FieldsV::Named(views(v@)),
            Fields::Unnamed(v) => FieldsV::Unnamed(views(v@)),
            Fields::Unit => FieldsV::Unit,
        }
    }
}

impl Duplicate for Fields {
    fn duplicate(&self) -> (r: Self) {
        match self {
            Fields::Named(v) => Fields::Named(dup_vec(v)),
            Fields::Unnamed(v) => Fields::Unnamed(dup_vec(v)),
            Fields::Unit => Fields::Unit,
        }
    }
}

/// The tokens of fields inside their delimiters, as a variant holds them.
pub open spec fn fields_group(f: FieldsV) -> Seq<TokenV> {
    match f {
        FieldsV::Named(s) => grouped(Delimiter::Brace, sep_tokens::<Field>(s)),
        FieldsV::Unnamed(s) => grouped(Delimiter::Paren, sep_tokens::<Field>(s)),
        FieldsV::Unit => Seq::empty(),
    }
}

fn render_fields_group(f: &Fields, out: &mut Vec<Token>)
    ensures
        toks(final(out)@) == toks(old(out)@) + fields_group(f@),
{
    match f {
        Fields::Named(v) => {
            let mut inner: Vec<Token> = Vec::new();
            render_sep(v, &mut inner);
            push_group(out, Delimiter::Brace, &inner);
            assert(toks(inner@) =~= sep_tokens::<Field>(views(v@)));
        },
        Fields::Unnamed(v) => {
            let mut inner: Vec<Token> = Vec::new();
            render_sep(v, &mut inner);
            push_group(out, Delimiter::Paren, &inner);
            assert(toks(inner@) =~= sep_tokens::<Field>(views(v@)));
        },
        Fields::Unit => {
            assert(toks(out@) =~= toks(old(out)@) + fields_group(f@));
        },
    }
}

/// A variant of an enum: `attrs name fields discriminant`, where the
/// discriminant holds its `=` when there is one.
#[derive(Debug, PartialEq, Eq)]
pub struct Variant {
    pub attrs: Vec<Attribute>,
    pub name: String,
    pub fields: Fields,
    pub discriminant: Vec<Token>,
}

pub struct VariantV {
    pub attrs: Seq<AttrV>,
    pub name: Seq<char>,
    pub fields: FieldsV,
    pub discriminant: Seq<TokenV>,
}

impl View for Variant {
    type V = VariantV;

    open spec fn view(&self) -> VariantV {
        VariantV {
            attrs: views(self.attrs@),
            name: self.name@,
            fields: self.fields@,
            discriminant: toks(self.discriminant@),
        }
    }
}

impl Duplicate for Variant {
    fn duplicate(&self) -> (r: Self) {
        Variant {
            attrs: dup_vec(&self.attrs),
            name: self.name.clone(),
            fields: self.fields.duplicate(),
            discriminant: copy_tokens(&self.discriminant),
        }
    }
}

impl Render for Variant {
    open spec fn spec_tokens(v: VariantV) -> Seq<TokenV> {
        list_tokens::<Attribute>(v.attrs) + seq![TokenV::Ident(v.name)] + fields_group(v.fields)
            + v.discriminant
    }

    fn render(&self, out: &mut Vec<Token>) {
        let ghost s0 = toks(out@);
        render_list(&self.attrs, out);
        let ghost s1 = toks(out@);
        assert(s1 == s0 + list_tokens::<Attribute>(self@.attrs));
        push_token(out, Token::Ident(self.name.clone()));
        let ghost s2 = toks(out@);
        assert(s2 =~= s1 + seq![TokenV::Ident(self@.name)]);
        render_fields_group(&self.fields, out);
        let ghost s3 = toks(out@);
        extend_tokens(out, &self.discriminant);
        assert(toks(out@) =~= s3 + self@.discriminant);
        assert(toks(final(out)@) =~= s0 + Self::spec_tokens(self@));
    }
}

/// The body of a declaration.
#[derive(Debug, PartialEq, Eq)]
pub enum Body {
    Struct(Fields),
    Enum(Vec<Variant>),
    Union(Vec<Field>),
}

pub enum BodyV {
    Struct(FieldsV),
    Enum(Seq<VariantV>),
    Union(Seq<FieldV>),
}

impl View for Body {
    type V = BodyV;

    open spec fn view(&self) -> BodyV {
        match self {
            Body::Struct(f) => BodyV::Struct(f@),
            Body::Enum(v) => BodyV::Enum(views(v@)),
            Body::Union(v) => BodyV::Union(views(v@)),
        }
    }
}

impl Duplicate for Body {
    fn duplicate(&self) -> (r: Self) {
        match self {
            Body::Struct(f) => Body::Struct(f.duplicate()),
            Body::Enum(v) => Body::Enum(dup_vec(v)),
            Body::Union(v) => Body::Union(dup_vec(v)),
        }
    }
}

/// One type definition: `attrs vis struct|enum|union name generics body`.
/// `generics` holds the parameters with their angle brackets, and
/// `where_clause` the where clause, `where` included.
#[derive(Debug, PartialEq, Eq)]
pub struct Declaration {
    pub attrs: Vec<Attribute>,
    pub vis: Vec<Token>,
    pub name: String,
    pub generics: Vec<Token>,
    pub where_clause: Vec<Token>,
    pub body: Body,
}

pub struct DeclV {
    pub attrs: Seq<AttrV>,
    pub vis: Seq<TokenV>,
    pub name: Seq<char>,
    pub generics: Seq<TokenV>,
    pub where_clause: Seq<TokenV>,
    pub body: BodyV,
}

impl View for Declaration {
    type V = DeclV;

    open spec fn view(&self) -> DeclV {
        DeclV {
            attrs: views(self.attrs@),
            vis: toks(self.vis@),
            name: self.name@,
            generics: toks(self.generics@),
            where_clause: toks(self.where_clause@),
            body: self.body@,
        }
    }
}

impl Duplicate for Declaration {
    fn duplicate(&self) -> (r: Self) {
        Declaration {
            attrs: dup_vec(&self.attrs),
            vis: copy_tokens(&self.vis),
            name: self.name.clone(),
            generics: copy_tokens(&self.generics),
            where_clause: copy_tokens(&self.where_clause),
            body: self.body.duplicate(),
        }
    }
}

/// The tokens of a body, after the generics.
pub open spec fn body_tokens(b: BodyV, w: Seq<TokenV>) -> Seq<TokenV> {
    let semi = seq![TokenV::Punct(';', Spacing::Alone)];
    match b {
        BodyV::Struct(FieldsV::Named(s)) => w + grouped(Delimiter::Brace, sep_tokens::<Field>(s)),
        BodyV::Struct(FieldsV::Unnamed(s)) => grouped(Delimiter::Paren, sep_tokens::<Field>(s)) + w
            + semi,
        BodyV::Struct(FieldsV::Unit) => w + semi,
        BodyV::Enum(s) => w + grouped(Delimiter::Brace, sep_tokens::<Variant>(s)),
        BodyV::Union(s) => w + grouped(Delimiter::Brace, sep_tokens::<Field>(s)),
    }
}

/// The keyword of a body.
pub open spec fn body_keyword(b: BodyV) -> Seq<char> {
    match b {
        BodyV::Struct(_) => "struct"@,
        BodyV::Enum(_) => "enum"@,
        BodyV::Union(_) => "union"@,
    }
}

impl Render for Declaration {
    open spec fn spec_tokens(d: DeclV) -> Seq<TokenV> {
        list_tokens::<Attribute>(d.attrs) + d.vis + seq![
            TokenV::Ident(body_keyword(d.body)),
            TokenV::Ident(d.name),
        ] + d.generics + body_tokens(d.body, d.where_clause)
    }

    fn render(&self, out: &mut Vec<Token>) {
        let ghost s0 = toks(out@);
        render_list(&self.attrs, out);
        let ghost s1 = toks(out@);
        assert(s1 == s0 + list_tokens::<Attribute>(self@.attrs));
        extend_tokens(out, &self.vis);
        let ghost s2 = toks(out@);
        assert(s2 =~= s1 + self@.vis);
        let kw = match &self.body {
            Body::Struct(_) => Token::ident("struct"),
            Body::Enum(_) => Token::ident("enum"),
            Body::Union(_) => Token::ident("union"),
        };
        push_token(out, kw);
        push_token(out, Token::Ident(self.name.clone()));
        let ghost s3 = toks(out@);
        assert(s3 =~= s2 + seq![TokenV::Ident(body_keyword(self@.body)), TokenV::Ident(self@.name)]);
        extend_tokens(out, &self.generics);
        let ghost mid = toks(out@);
        assert(mid =~= s3 + self@.generics);
        let semi = Token::Punct(';', Spacing::Alone);
        match &self.body {
            Body::Struct(Fields::Named(v)) => {
                extend_tokens(out, &self.where_clause);
                let mut inner: Vec<Token> = Vec::new();
                render_sep(v, &mut inner);
                assert(toks(inner@) =~= sep_tokens::<Field>(views(v@)));
                push_group(out, Delimiter::Brace, &inner);
            },
            Body::Struct(Fields::Unnamed(v)) => {
                let mut inner: Vec<Token> = Vec::new();
                render_sep(v, &mut inner);
                assert(toks(inner@) =~= sep_tokens::<Field>(views(v@)));
                push_group(out, Delimiter::Paren, &inner);
                let ghost m2 = toks(out@);
                extend_tokens(out, &self.where_clause);
                assert(toks(out@) =~= m2 + self@.where_clause);
                push_token(out, semi);
            },
            Body::Struct(Fields::Unit) => {
                extend_tokens(out, &self.where_clause);
                push_token(out, semi);
            },
            Body::Enum(v) => {
                extend_tokens(out, &self.where_clause);
                let mut inner: Vec<Token> = Vec::new();
                render_sep(v, &mut inner);
                assert(toks(inner@) =~= sep_tokens::<Variant>(views(v@)));
                push_group(out, Delimiter::Brace, &inner);
            },
            Body::Union(v) => {
                extend_tokens(out, &self.where_clause);
                let mut inner: Vec<Token> = Vec::new();
                render_sep(v, &mut inner);
                assert(toks(inner@) =~= sep_tokens::<Field>(views(v@)));
                push_group(out, Delimiter::Brace, &inner);
            },
        }
        assert(toks(out@) =~= mid + body_tokens(self.body@, toks(self.where_clause@)));
        assert(toks(final(out)@) =~= s0 + Self::spec_tokens(self@));
    }
}

/// The tokens of the declaration.
pub open spec fn decl_tokens(d: DeclV) -> Seq<TokenV> {
    <Declaration as Render>::spec_tokens(d)
}

impl Declaration {
    /// Appends the tokens of the declaration to `out`.
    pub fn to_tokens(&self, out: &mut Vec<Token>)
        ensures
            toks(final(out)@) == toks(old(out)@) + decl_tokens(self@),
    {
        self.render(out)
    }

    /// The tokens of the declaration.
    pub fn into_tokens(&self) -> (r: Vec<Token>)
        ensures
            toks(r@) == decl_tokens(self@),
    {
        let mut r: Vec<Token> = Vec::new();
        self.render(&mut r);
        assert(toks(r@) =~= decl_tokens(self@));
        r
    }
}

} // verus!
