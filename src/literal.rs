//! The literal that restarts the state machine in a given state:
//! `@tag name={tokens} ...`, with the fields in any order.
use vstd::prelude::*;
use crate::command::{CommandV, Path, parse_commands, parse_commands_exec, path_shaped};
use crate::commands::parse_forks;
use crate::error::{Error, ErrorKind, ErrorV, err_v, notation_v};
use crate::rest::{RestV, TransformRest, parse_named, parse_named_exec, parse_rest};
use crate::state::{ForkCommand, ForkV, StateV, TransformState, pipe_v};
use crate::decl::{DeclV, Declaration};
use crate::tokens::{Token, TokenV, toks};

verus! {

/// The state that a literal names.
#[derive(PartialEq, Eq, Structural, Clone, Copy, Debug)]
pub enum Tag {
    Consume,
    Debug,
    Fork,
    Pipe,
    Resume,
    Save,
}

pub open spec fn tag_of(n: Seq<char>) -> Option<Tag> {
    if n == "consume"@ {
        Some(Tag::Consume)
    } else if n == "debug"@ {
        Some(Tag::Debug)
    } else if n == "fork"@ {
        Some(Tag::Fork)
    } else if n == "pipe"@ {
        Some(Tag::Pipe)
    } else if n == "resume"@ {
        Some(Tag::Resume)
    } else if n == "save"@ {
        Some(Tag::Save)
    } else {
        None
    }
}

/// The fields that a state of `tag` must have, besides `rest`.
pub open spec fn required(tag: Tag, n: Seq<char>) -> bool {
    match tag {
        Tag::Resume => n == "path"@,
        _ => n == "data"@,
    }
}

/// The fields that a literal of `tag` may hold.
pub open spec fn allowed(tag: Tag, n: Seq<char>) -> bool {
    ||| n == "rest"@
    ||| n == "pipe"@
    ||| n == "extra"@
    ||| n == "marker"@
    ||| required(tag, n)
    ||| (tag == Tag::Debug && n == "args"@)
    ||| (tag == Tag::Fork && n == "fork"@)
}

/// Reads `name={tokens}` fields one after the other, from `pos` to the end.
pub open spec fn parse_fields(s: Seq<TokenV>, pos: int) -> Result<Seq<(Seq<char>, Seq<TokenV>)>, ErrorV>
    decreases s.len() - pos,
{
    if pos < 0 || pos >= s.len() {
        Ok(Seq::empty())
    } else if !(s[pos] is Ident) {
        Err(notation_v("expected a field name"@))
    } else {
        match parse_named(s, pos, s[pos]->Ident_0) {
            Err(e) => Err(e),
            Ok((c, n)) => if n <= pos {
                Err(notation_v("expected a field name"@))
            } else {
                match parse_fields(s, n) {
                    Err(e) => Err(e),
                    Ok(rest) => Ok(seq![(s[pos]->Ident_0, c)] + rest),
                }
            },
        }
    }
}

/// The contents of the field named `n`, if there is one.
pub open spec fn field(fs: Seq<(Seq<char>, Seq<TokenV>)>, n: Seq<char>) -> Option<Seq<TokenV>>
    decreases fs.len(),
{
    if fs.len() == 0 {
        None
    } else if fs[0].0 == n {
        Some(fs[0].1)
    } else {
        field(fs.drop_first(), n)
    }
}

/// Each field is one that the tag allows, and appears once.
pub open spec fn fields_ok(tag: Tag, fs: Seq<(Seq<char>, Seq<TokenV>)>) -> bool {
    &&& forall|i: int| 0 <= i < fs.len() ==> allowed(tag, #[trigger] fs[i].0)
    &&& forall|i: int, j: int| 0 <= i < j < fs.len() ==> #[trigger] fs[i].0 != #[trigger] fs[j].0
}

/// What a literal says: its state, the fields of that state, and the
/// continuation with the contributions of `pipe`, `extra` and `marker`.
pub struct LiteralV {
    pub tag: Tag,
    pub data: Option<Seq<TokenV>>,
    pub args: Option<Seq<TokenV>>,
    pub fork: Option<Seq<ForkV>>,
    pub path: Option<Seq<TokenV>>,
    pub rest: RestV,
}

/// The continuation of a literal: `rest`, after the commands of `pipe`, with
/// `extra` and `marker` appended.
pub open spec fn literal_rest(r: RestV, pipe: Seq<CommandV>, extra: Seq<TokenV>, marker: Seq<TokenV>) -> RestV {
    RestV { this: r.this, pipe: pipe + r.pipe, extra: r.extra + extra, marker: r.marker + marker }
}

pub open spec fn or_empty(o: Option<Seq<TokenV>>) -> Seq<TokenV> {
    match o {
        Some(c) => c,
        None => Seq::empty(),
    }
}

/// Reads a literal `@tag name={tokens} ...`.
pub open spec fn parse_literal(s: Seq<TokenV>) -> Result<LiteralV, ErrorV> {
    if !(s.len() >= 2 && s[0] == TokenV::Punct('@', crate::tokens::Spacing::Alone) && s[1] is Ident) {
        Err(notation_v("expected `@` and a state"@))
    } else {
        match tag_of(s[1]->Ident_0) {
            None => Err(notation_v("unknown state"@)),
            Some(tag) => match parse_fields(s, 2) {
                Err(e) => Err(e),
                Ok(fs) => if !fields_ok(tag, fs) {
                    Err(notation_v("unexpected or repeated field"@))
                } else {
                    let need = if tag == Tag::Resume { "path"@ } else { "data"@ };
                    match (field(fs, "rest"@), field(fs, need)) {
                        (None, _) => Err(err_v(ErrorKind::MissingField, "rest"@)),
                        (_, None) => Err(err_v(ErrorKind::MissingField, need)),
                        (Some(rc), Some(req)) => match parse_rest(rc) {
                            Err(e) => Err(e),
                            Ok(r) => match parse_commands(or_empty(field(fs, "pipe"@)), 0) {
                                Err(e) => Err(e),
                                Ok(pipe) => if tag == Tag::Resume && !path_shaped(req) {
                                    Err(notation_v("expected a command path"@))
                                } else {
                                    let fork = match field(fs, "fork"@) {
                                        None => Ok(None),
                                        Some(fc) => match parse_forks(fc, 0) {
                                            Err(e) => Err(e),
                                            Ok(f) => Ok(Some(f)),
                                        },
                                    };
                                    match fork {
                                        Err(e) => Err(e),
                                        Ok(fork) => Ok(
                                            LiteralV {
                                                tag,
                                                data: if tag == Tag::Resume { None } else { Some(req) },
                                                args: field(fs, "args"@),
                                                fork,
                                                path: if tag == Tag::Resume { Some(req) } else { None },
                                                rest: literal_rest(
                                                    r,
                                                    pipe,
                                                    or_empty(field(fs, "extra"@)),
                                                    or_empty(field(fs, "marker"@)),
                                                ),
                                            },
                                        ),
                                    }
                                },
                            },
                        },
                    }
                },
            },
        }
    }
}

/// The views of read fields.
pub open spec fn fields_v(x: Seq<(String, Vec<Token>)>) -> Seq<(Seq<char>, Seq<TokenV>)> {
    x.map_values(|p: (String, Vec<Token>)| (p.0@, toks(p.1@)))
}

fn parse_fields_exec(v: &Vec<Token>) -> (r: Result<Vec<(String, Vec<Token>)>, Error>)
    ensures
        match (r, parse_fields(toks(v@), 2)) {
            (Ok(a), Ok(b)) => fields_v(a@) == b,
            (Err(e), Err(f)) => e@ == f,
            _ => false,
        },
{
    let ghost s = toks(v@);
    let mut out: Vec<(String, Vec<Token>)> = Vec::new();
    let mut pos: usize = 2;
    if v.len() < 2 {
        return Ok(out);
    }
    while pos < v.len()
        invariant
            2 <= pos <= v.len(),
            s == toks(v@),
            parse_fields(s, 2) == match parse_fields(s, pos as int) {
                Ok(rest) => Ok(fields_v(out@) + rest),
                Err(e) => Err::<Seq<(Seq<char>, Seq<TokenV>)>, ErrorV>(e),
            },
        decreases v.len() - pos,
    {
        assert(s[pos as int] == v@[pos as int]@);
        let name = match &v[pos] {
            Token::Ident(n) => n.clone(),
            _ => {
                return Err(Error::new(ErrorKind::Notation, "expected a field name"));
            },
        };
        let (c, n) = parse_named_exec(v, pos, name.as_str())?;
        if n <= pos {
            return Err(Error::new(ErrorKind::Notation, "expected a field name"));
        }
        let ghost item = (name@, toks(c@));
        proof {
            match parse_fields(s, n as int) {
                Ok(rest) => {
                    assert(fields_v(out@.push((name, c))) =~= fields_v(out@).push(item));
                    assert(fields_v(out@) + (seq![item] + rest) =~= fields_v(out@).push(item) + rest);
                },
                Err(_) => {},
            }
        }
        out.push((name, c));
        pos = n;
    }
    assert(fields_v(out@) + Seq::<(Seq<char>, Seq<TokenV>)>::empty() =~= fields_v(out@));
    Ok(out)
}

fn find_field(fs: &Vec<(String, Vec<Token>)>, n: &str) -> (r: Option<Vec<Token>>)
    ensures
        match (r, field(fields_v(fs@), n@)) {
            (Some(a), Some(b)) => toks(a@) == b,
            (None, None) => true,
            _ => false,
        },
{
    let mut i: usize = 0;
    assert(fields_v(fs@).skip(0) =~= fields_v(fs@));
    while i < fs.len()
        invariant
            i <= fs.len(),
            field(fields_v(fs@), n@) == field(fields_v(fs@).skip(i as int), n@),
        decreases fs.len() - i,
    {
        let ghost rest = fields_v(fs@).skip(i as int);
        assert(rest[0] == fields_v(fs@)[i as int]);
        assert(rest.drop_first() =~= fields_v(fs@).skip(i + 1));
        if fs[i].0 == n.to_owned() {
            return Some(crate::tokens::copy_tokens(&fs[i].1));
        }
        i = i + 1;
    }
    None
}

fn tag_exec(n: &String) -> (r: Option<Tag>)
    ensures
        r == tag_of(n@),
{
    if *n == "consume".to_owned() {
        Some(Tag::Consume)
    } else if *n == "debug".to_owned() {
        Some(Tag::Debug)
    } else if *n == "fork".to_owned() {
        Some(Tag::Fork)
    } else if *n == "pipe".to_owned() {
        Some(Tag::Pipe)
    } else if *n == "resume".to_owned() {
        Some(Tag::Resume)
    } else if *n == "save".to_owned() {
        Some(Tag::Save)
    } else {
        None
    }
}

fn allowed_exec(tag: Tag, n: &String) -> (r: bool)
    ensures
        r == allowed(tag, n@),
{
    let is = |s: &str| -> (b: bool)
        ensures
            b == (n@ == s@),
        { *n == s.to_owned() };
    is("rest") || is("pipe") || is("extra") || is("marker") || (tag == Tag::Resume && is("path")) || (
    tag != Tag::Resume && is("data")) || (tag == Tag::Debug && is("args")) || (tag == Tag::Fork && is(
        "fork",
    ))
}

fn fields_ok_exec(tag: Tag, fs: &Vec<(String, Vec<Token>)>) -> (r: bool)
    ensures
        r == fields_ok(tag, fields_v(fs@)),
{
    let ghost f = fields_v(fs@);
    let mut i: usize = 0;
    while i < fs.len()
        invariant
            i <= fs.len(),
            f == fields_v(fs@),
            forall|k: int| 0 <= k < i ==> allowed(tag, #[trigger] f[k].0),
            forall|a: int, b: int| 0 <= a < b < fs.len() && a < i ==> #[trigger] f[a].0 != #[trigger] f[b].0,
        decreases fs.len() - i,
    {
        assert(f[i as int].0 == fs@[i as int].0@);
        if !allowed_exec(tag, &fs[i].0) {
            return false;
        }
        let mut j: usize = i + 1;
        while j < fs.len()
            invariant
                i < fs.len(),
                i < j <= fs.len(),
                f == fields_v(fs@),
                f[i as int].0 == fs@[i as int].0@,
                forall|b: int| i < b < j ==> f[i as int].0 != #[trigger] f[b].0,
            decreases fs.len() - j,
        {
            assert(f[j as int].0 == fs@[j as int].0@);
            if fs[i].0 == fs[j].0 {
                assert(f[i as int].0 == f[j as int].0);
                return false;
            }
            j = j + 1;
        }
        i = i + 1;
    }
    true
}

/// A literal: its state, the fields of that state, and the continuation.
#[derive(Debug)]
pub struct Literal {
    pub tag: Tag,
    pub data: Option<Vec<Token>>,
    pub args: Option<Vec<Token>>,
    pub fork: Option<Vec<ForkCommand>>,
    pub path: Option<Path>,
    pub rest: TransformRest,
}

impl View for Literal {
    type V = LiteralV;

    open spec fn view(&self) -> LiteralV {
        LiteralV {
            tag: self.tag,
            data: crate::state::opt_toks(self.data),
            args: crate::state::opt_toks(self.args),
            fork: crate::state::opt_forks(self.fork),
            path: match self.path {
                Some(p) => Some(p@),
                None => None,
            },
            rest: self.rest@,
        }
    }
}

impl Literal {
    /// Reads a literal `@tag name={tokens} ...`.
    pub fn parse(v: &Vec<Token>) -> (r: Result<Literal, Error>)
        ensures
            match (r, parse_literal(toks(v@))) {
                (Ok(a), Ok(b)) => a@ == b,
                (Err(e), Err(f)) => e@ == f,
                _ => false,
            },
    {
        let ghost s = toks(v@);
        if !(v.len() >= 2 && v[0].is_punct('@')) {
            proof {
                if v.len() >= 2 {
                    assert(s[0] == v@[0]@);
                }
            }
            return Err(Error::new(ErrorKind::Notation, "expected `@` and a state"));
        }
        assert(s[0] == v@[0]@);
        assert(s[1] == v@[1]@);
        let sp_alone = match &v[0] {
            Token::Punct(_, sp) => *sp == crate::tokens::Spacing::Alone,
            _ => false,
        };
        let tag_name = match &v[1] {
            Token::Ident(n) => n,
            _ => {
                return Err(Error::new(ErrorKind::Notation, "expected `@` and a state"));
            },
        };
        if !sp_alone {
            return Err(Error::new(ErrorKind::Notation, "expected `@` and a state"));
        }
        let tag = match tag_exec(tag_name) {
            Some(t) => t,
            None => {
                return Err(Error::new(ErrorKind::Notation, "unknown state"));
            },
        };
        let fs = parse_fields_exec(v)?;
        if !fields_ok_exec(tag, &fs) {
            return Err(Error::new(ErrorKind::Notation, "unexpected or repeated field"));
        }
        let need = if tag == Tag::Resume { "path" } else { "data" };
        let rc = match find_field(&fs, "rest") {
            Some(c) => c,
            None => {
                return Err(Error::new(ErrorKind::MissingField, "rest"));
            },
        };
        let req = match find_field(&fs, need) {
            Some(c) => c,
            None => {
                return Err(Error::new(ErrorKind::MissingField, need));
            },
        };
        let mut rest = TransformRest::parse(&rc)?;
        let pc = match find_field(&fs, "pipe") {
            Some(c) => c,
            None => Vec::new(),
        };
        assert(toks(pc@) == or_empty(field(fields_v(fs@), "pipe"@)));
        let pipe = parse_commands_exec(&pc)?;
        if tag == Tag::Resume && !Path::is_path(&req) {
            return Err(Error::new(ErrorKind::Notation, "expected a command path"));
        }
        let fork = match find_field(&fs, "fork") {
            None => None,
            Some(fc) => Some(crate::commands::parse_forks_exec(&fc)?),
        };
        let extra = match find_field(&fs, "extra") {
            Some(c) => c,
            None => Vec::new(),
        };
        let marker = match find_field(&fs, "marker") {
            Some(c) => c,
            None => Vec::new(),
        };
        assert(toks(extra@) == or_empty(field(fields_v(fs@), "extra"@)));
        assert(toks(marker@) == or_empty(field(fields_v(fs@), "marker"@)));
        rest.with_pipe(pipe);
        rest.with_extra(&extra);
        rest.with_marker(&marker);
        let args = find_field(&fs, "args");
        let (data, path) = if tag == Tag::Resume {
            (None, Some(Path { tokens: req }))
        } else {
            (Some(req), None)
        };
        Ok(Literal { tag, data, args, fork, path, rest })
    }
}

/// Whether the state of `tag` holds a declaration, which its `data` field carries.
pub open spec fn holds_declaration(tag: Tag) -> bool {
    tag != Tag::Consume && tag != Tag::Resume
}

/// The state that a literal names, with `d` the declaration that its `data`
/// field holds when the state has one.
pub open spec fn literal_state(l: LiteralV, d: Option<DeclV>) -> Option<StateV> {
    if holds_declaration(l.tag) {
        match d {
            None => None,
            Some(d) => Some(
                match l.tag {
                    Tag::Debug => StateV::Debug { data: d, args: l.args },
                    Tag::Fork => StateV::Fork { data: d, fork: l.fork },
                    Tag::Save => StateV::Save { data: d, name: None },
                    _ => pipe_v(d),
                },
            ),
        }
    } else if l.tag == Tag::Consume {
        match l.data {
            Some(t) => Some(StateV::Consume { data: t }),
            None => None,
        }
    } else {
        match l.path {
            Some(p) => Some(StateV::Resume { path: p, pipe: None }),
            None => None,
        }
    }
}

impl Literal {
    /// Whether the state holds a declaration, to be read from `data`.
    pub fn holds_declaration(&self) -> (r: bool)
        ensures
            r == holds_declaration(self.tag),
    {
        self.tag != Tag::Consume && self.tag != Tag::Resume
    }

    /// The state that the literal names and its continuation; `decl` is the
    /// declaration that `data` holds, when the state has one.
    pub fn into_state(self, decl: Option<Declaration>) -> (r: (Option<TransformState>, TransformRest))
        ensures
            r.1@ == self@.rest,
            ({
                let dv = match decl {
                    Some(d) => Some(d@),
                    None => None,
                };
                match r.0 {
                    Some(s) => literal_state(self@, dv) == Some(s@),
                    None => literal_state(self@, dv) is None,
                }
            }),
    {
        let ghost lv = self@;
        let Literal { tag, data, args, fork, path, rest } = self;
        let state = if tag != Tag::Consume && tag != Tag::Resume {
            match decl {
                None => None,
                Some(d) => Some(
                    match tag {
                        Tag::Debug => TransformState::Debug(crate::state::TransformDebug { data: d, args }),
                        Tag::Fork => TransformState::Fork(crate::state::TransformFork { data: d, fork }),
                        Tag::Save => TransformState::Save(TransformState::save(d)),
                        _ => TransformState::pipe(d).build(),
                    },
                ),
            }
        } else if tag == Tag::Consume {
            match data {
                Some(t) => Some(TransformState::consume(t).build()),
                None => None,
            }
        } else {
            match path {
                Some(p) => Some(TransformState::resume(p).build()),
                None => None,
            }
        };
        (state, rest)
    }
}

} // verus!
