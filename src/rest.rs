//! The continuation of a pipeline and its notation:
//! `this={path} pipe={commands} extra={tokens} marker={tokens}`.
use vstd::prelude::*;
use crate::command::{
    CommandV, Path, PipeCommand, cmds_v, commands_tokens, commands_wf, is_punct_char, parse_commands,
    path_shaped, lemma_commands_balanced, lemma_commands_tokens_push, lemma_parse_commands,
    parse_commands_exec,
};
use crate::error::{Error, ErrorKind, ErrorV, err_v, notation_v};
use crate::tokens::{
    Delimiter, Spacing, Token, TokenV, balanced, copy_range, copy_tokens, extend_tokens, group_close,
    group_end, grouped, lemma_group_end, push_group, toks,
};

verus! {

/// What is left to do in a pipeline.
///
/// `pipe` holds the pending commands as a stack: the next command to run is
/// the last one. `extra` is appended to the output after the declaration;
/// `marker` is appended to the output whatever happens, errors included.
#[derive(Debug, PartialEq, Eq)]
pub struct TransformRest {
    pub this: Path,
    pub pipe: Vec<PipeCommand>,
    pub extra: Vec<Token>,
    pub marker: Vec<Token>,
}

/// What a continuation is: the current command, the pending commands in the
/// order in which they run, and the two accumulators.
pub struct RestV {
    pub this: Seq<TokenV>,
    pub pipe: Seq<CommandV>,
    pub extra: Seq<TokenV>,
    pub marker: Seq<TokenV>,
}

/// The commands of a stack, in the order in which they are popped.
pub open spec fn pending(v: Seq<PipeCommand>) -> Seq<CommandV> {
    Seq::new(v.len(), |i: int| v[v.len() - 1 - i]@)
}

impl View for TransformRest {
    type V = RestV;

    open spec fn view(&self) -> RestV {
        RestV {
            this: self.this@,
            pipe: pending(self.pipe@),
            extra: toks(self.extra@),
            marker: toks(self.marker@),
        }
    }
}

/// A continuation that its notation can carry.
pub open spec fn rest_wf(r: RestV) -> bool {
    &&& path_shaped(r.this)
    &&& commands_wf(r.pipe)
    &&& balanced(r.extra)
    &&& balanced(r.marker)
}

/// The notation of a named field: `kw={c}`.
pub open spec fn named_tokens(kw: Seq<char>, c: Seq<TokenV>) -> Seq<TokenV> {
    seq![TokenV::Ident(kw), TokenV::Punct('=', Spacing::Alone)] + grouped(Delimiter::Brace, c)
}

/// The notation of a continuation.
pub open spec fn rest_tokens(r: RestV) -> Seq<TokenV> {
    named_tokens("this"@, r.this) + named_tokens("pipe"@, commands_tokens(r.pipe)) + named_tokens(
        "extra"@,
        r.extra,
    ) + named_tokens("marker"@, r.marker)
}

/// Reads the field named `kw` at `pos`: its contents, and where it ends.
pub open spec fn parse_named(s: Seq<TokenV>, pos: int, kw: Seq<char>) -> Result<
    (Seq<TokenV>, int),
    ErrorV,
> {
    if !(0 <= pos < s.len() && s[pos] == TokenV::Ident(kw)) {
        Err(err_v(ErrorKind::MissingField, kw))
    } else if !(pos + 2 < s.len() && is_punct_char(s[pos + 1], '=') && s[pos + 2] == TokenV::Open(
        Delimiter::Brace,
    )) {
        Err(notation_v("expected `={`"@))
    } else {
        match group_close(s, pos + 2) {
            None => Err(notation_v("unclosed group"@)),
            Some(e) => if s[e] != TokenV::Close(Delimiter::Brace) {
                Err(notation_v("mismatched delimiter"@))
            } else {
                Ok((s.subrange(pos + 3, e), e + 1))
            },
        }
    }
}

/// Reads a continuation from its notation.
pub open spec fn parse_rest(s: Seq<TokenV>) -> Result<RestV, ErrorV> {
    match parse_named(s, 0, "this"@) {
        Err(e) => Err(e),
        Ok((this, k1)) => if !path_shaped(this) {
            Err(notation_v("expected a command path"@))
        } else {
            match parse_named(s, k1, "pipe"@) {
                Err(e) => Err(e),
                Ok((pc, k2)) => match parse_commands(pc, 0) {
                    Err(e) => Err(e),
                    Ok(pipe) => match parse_named(s, k2, "extra"@) {
                        Err(e) => Err(e),
                        Ok((extra, k3)) => match parse_named(s, k3, "marker"@) {
                            Err(e) => Err(e),
                            Ok((marker, k4)) => if k4 != s.len() {
                                Err(notation_v("unexpected token"@))
                            } else {
                                Ok(RestV { this, pipe, extra, marker })
                            },
                        },
                    },
                },
            }
        },
    }
}

/// A named field's notation reads back as its contents.
pub proof fn lemma_parse_named(s: Seq<TokenV>, pos: int, kw: Seq<char>, c: Seq<TokenV>)
    requires
        balanced(c),
        0 <= pos,
        pos + named_tokens(kw, c).len() <= s.len(),
        s.subrange(pos, pos + named_tokens(kw, c).len()) == named_tokens(kw, c),
    ensures
        parse_named(s, pos, kw) == Ok::<(Seq<TokenV>, int), ErrorV>(
            (c, pos + named_tokens(kw, c).len()),
        ),
{
    let nt = named_tokens(kw, c);
    let e = pos + 3 + c.len();
    assert(s[pos] == nt[0]);
    assert(s[pos + 1] == nt[1]);
    assert(s[pos + 2] == nt[2]);
    assert(s.subrange(pos + 2, e + 1) =~= grouped(Delimiter::Brace, c)) by {
        assert forall|j: int| 0 <= j < e + 1 - (pos + 2) implies s.subrange(pos + 2, e + 1)[j]
            == grouped(Delimiter::Brace, c)[j] by {
            assert(s[pos + 2 + j] == nt[2 + j]);
        }
    }
    lemma_group_end(s, pos + 2, Delimiter::Brace, c, e);
    assert(s[e] == nt[e - pos]);
    assert(s.subrange(pos + 3, e) =~= c) by {
        assert forall|j: int| 0 <= j < c.len() implies s.subrange(pos + 3, e)[j] == c[j] by {
            assert(s[pos + 3 + j] == nt[3 + j]);
        }
    }
}

/// Encoding a well-formed continuation, then decoding the result, gives back
/// the same continuation: the same current command, the same pending
/// commands in the same order, and the same accumulators.
proof fn lemma_parse_rest_parts(s: Seq<TokenV>, r: RestV, k1: int, k2: int, k3: int)
    requires
        parse_named(s, 0, "this"@) == Ok::<(Seq<TokenV>, int), ErrorV>((r.this, k1)),
        path_shaped(r.this),
        parse_named(s, k1, "pipe"@) == Ok::<(Seq<TokenV>, int), ErrorV>(
            (commands_tokens(r.pipe), k2),
        ),
        parse_commands(commands_tokens(r.pipe), 0) == Ok::<Seq<CommandV>, ErrorV>(r.pipe),
        parse_named(s, k2, "extra"@) == Ok::<(Seq<TokenV>, int), ErrorV>((r.extra, k3)),
        parse_named(s, k3, "marker"@) == Ok::<(Seq<TokenV>, int), ErrorV>(
            (r.marker, s.len() as int),
        ),
    ensures
        parse_rest(s) == Ok::<RestV, ErrorV>(r),
{
}

pub proof fn lemma_rest_round_trip(r: RestV)
    requires
        rest_wf(r),
    ensures
        parse_rest(rest_tokens(r)) == Ok::<RestV, ErrorV>(r),
{
    let s = rest_tokens(r);
    let pc = commands_tokens(r.pipe);
    let a = named_tokens("this"@, r.this);
    let b = named_tokens("pipe"@, pc);
    let c = named_tokens("extra"@, r.extra);
    let d = named_tokens("marker"@, r.marker);
    lemma_four_parts(a, b, c, d);
    let k1 = a.len() as int;
    let k2 = k1 + b.len();
    let k3 = k2 + c.len();
    crate::command::lemma_path_flat(r.this);
    lemma_parse_named(s, 0, "this"@, r.this);
    lemma_commands_balanced(r.pipe);
    lemma_parse_named(s, k1, "pipe"@, pc);
    assert(pc.subrange(0, pc.len() as int) =~= pc);
    lemma_parse_commands(pc, 0, r.pipe);
    lemma_parse_named(s, k2, "extra"@, r.extra);
    lemma_parse_named(s, k3, "marker"@, r.marker);
    lemma_parse_rest_parts(s, r, k1, k2, k3);
}

proof fn lemma_four_parts(a: Seq<TokenV>, b: Seq<TokenV>, c: Seq<TokenV>, d: Seq<TokenV>)
    ensures
        ({
            let s = a + b + c + d;
            let k1 = a.len() as int;
            let k2 = k1 + b.len();
            let k3 = k2 + c.len();
            &&& s.subrange(0, k1) == a
            &&& s.subrange(k1, k2) == b
            &&& s.subrange(k2, k3) == c
            &&& s.subrange(k3, s.len() as int) == d
        }),
{
    let s = a + b + c + d;
    let k1 = a.len() as int;
    let k2 = k1 + b.len();
    let k3 = k2 + c.len();
    assert(s.subrange(0, k1) =~= a);
    assert(s.subrange(k1, k2) =~= b);
    assert(s.subrange(k2, k3) =~= c);
    assert(s.subrange(k3, s.len() as int) =~= d);
}

/// Appends `kw={c}` to `out`.
pub fn push_named(out: &mut Vec<Token>, kw: &str, c: &Vec<Token>)
    ensures
        toks(final(out)@) == toks(old(out)@) + named_tokens(kw@, toks(c@)),
{
    out.push(Token::ident(kw));
    out.push(Token::Punct('=', Spacing::Alone));
    let ghost mid = toks(out@);
    push_group(out, Delimiter::Brace, c);
    assert(toks(final(out)@) =~= toks(old(out)@) + named_tokens(kw@, toks(c@)));
}

/// Reads the field named `kw` at `pos` in `v`: its contents, and where it ends.
pub fn parse_named_exec(v: &Vec<Token>, pos: usize, kw: &str) -> (r: Result<(Vec<Token>, usize), Error>)
    requires
        pos <= v.len(),
    ensures
        match (r, parse_named(toks(v@), pos as int, kw@)) {
            (Ok((c, n)), Ok((cv, m))) => toks(c@) == cv && n == m,
            (Err(e), Err(f)) => e@ == f,
            _ => false,
        },
        r matches Ok((_, n)) ==> pos < n <= v.len(),
{
    let ghost s = toks(v@);
    let n = v.len();
    if !(pos < n && v[pos].is_ident(kw)) {
        proof {
            if pos < n {
                assert(s[pos as int] == v@[pos as int]@);
            }
        }
        return Err(Error::new(ErrorKind::MissingField, kw));
    }
    proof {
        assert(s[pos as int] == v@[pos as int]@);
    }
    if !(n - pos > 2 && v[pos + 1].is_punct('=') && v[pos + 2].is_open(Delimiter::Brace)) {
        proof {
            if n - pos > 2 {
                assert(s[pos + 1] == v@[pos + 1]@);
                assert(s[pos + 2] == v@[pos + 2]@);
            }
        }
        return Err(Error::new(ErrorKind::Notation, "expected `={`"));
    }
    proof {
        assert(s[pos + 1] == v@[pos + 1]@);
        assert(s[pos + 2] == v@[pos + 2]@);
    }
    match group_end(v, pos + 2) {
        None => Err(Error::new(ErrorKind::Notation, "unclosed group")),
        Some(e) => {
            proof {
                assert(s[e as int] == v@[e as int]@);
            }
            if !v[e].is_close(Delimiter::Brace) {
                Err(Error::new(ErrorKind::Notation, "mismatched delimiter"))
            } else {
                let c = copy_range(v, pos + 3, e);
                Ok((c, e + 1))
            }
        },
    }
}

/// The stack that pops `cmds` in their order.
fn into_stack(cmds: Vec<PipeCommand>) -> (r: Vec<PipeCommand>)
    ensures
        pending(r@) == cmds_v(cmds@),
{
    let mut cmds = cmds;
    let ghost orig = cmds@;
    let mut r: Vec<PipeCommand> = Vec::new();
    while cmds.len() > 0
        invariant
            cmds_v(cmds@) + pending(r@) == cmds_v(orig),
        decreases cmds.len(),
    {
        let ghost before = cmds@;
        let c = cmds.pop().unwrap();
        proof {
            assert(pending(r@.push(c)) =~= seq![c@] + pending(r@));
            assert(cmds_v(before) =~= cmds_v(cmds@).push(c@));
            assert(cmds_v(cmds@) + pending(r@.push(c)) =~= cmds_v(before) + pending(r@));
        }
        r.push(c);
    }
    assert(cmds_v(cmds@) + pending(r@) =~= pending(r@));
    r
}

impl TransformRest {
    /// A continuation with no pending command and empty accumulators, whose
    /// current command is `this`.
    pub fn empty(this: Path) -> (r: TransformRest)
        ensures
            r@ == (RestV {
                this: this@,
                pipe: Seq::empty(),
                extra: Seq::empty(),
                marker: Seq::empty(),
            }),
    {
        let r = TransformRest { this, pipe: Vec::new(), extra: Vec::new(), marker: Vec::new() };
        assert(r@.pipe =~= Seq::<CommandV>::empty());
        assert(r@.extra =~= Seq::<TokenV>::empty());
        assert(r@.marker =~= Seq::<TokenV>::empty());
        r
    }

    /// The path of the current command.
    pub fn this(&self) -> (r: &Path)
        ensures
            r@ == self@.this,
    {
        &self.this
    }

    /// The pending commands, in the order in which they run.
    pub fn pending(&self) -> (r: Vec<PipeCommand>)
        ensures
            cmds_v(r@) == self@.pipe,
    {
        let mut r: Vec<PipeCommand> = Vec::new();
        let mut i = self.pipe.len();
        while i > 0
            invariant
                i <= self.pipe.len(),
                cmds_v(r@) == self@.pipe.take(self.pipe.len() - i),
            decreases i,
        {
            let ghost old_r = r@;
            let c = self.pipe[i - 1].duplicate();
            r.push(c);
            proof {
                let n = self.pipe.len() as int;
                assert(cmds_v(r@) =~= cmds_v(old_r).push(c@));
                assert(self@.pipe[n - i] == self.pipe@[i - 1]@);
                assert(self@.pipe.take(n - i + 1) =~= self@.pipe.take(n - i).push(self@.pipe[n - i]));
            }
            i = i - 1;
        }
        assert(self@.pipe.take(self.pipe.len() as int) =~= self@.pipe);
        r
    }

    /// The tokens to append after the declaration.
    pub fn extra(&self) -> (r: &Vec<Token>)
        ensures
            toks(r@) == self@.extra,
    {
        &self.extra
    }

    /// The tokens to append to the output whatever happens.
    pub fn marker(&self) -> (r: &Vec<Token>)
        ensures
            toks(r@) == self@.marker,
    {
        &self.marker
    }

    /// Whether no command is pending.
    pub fn is_empty(&self) -> (r: bool)
        ensures
            r == (self@.pipe.len() == 0),
    {
        self.pipe.len() == 0
    }

    /// Runs the commands of `pipe`, in their order, before the pending ones.
    pub fn with_pipe(&mut self, pipe: Vec<PipeCommand>)
        ensures
            final(self)@ == (RestV { pipe: cmds_v(pipe@) + old(self)@.pipe, ..old(self)@ }),
    {
        let mut pipe = pipe;
        let ghost orig = pipe@;
        while pipe.len() > 0
            invariant
                cmds_v(pipe@) + self@.pipe == cmds_v(orig) + old(self)@.pipe,
                self@.this == old(self)@.this,
                self@.extra == old(self)@.extra,
                self@.marker == old(self)@.marker,
            decreases pipe.len(),
        {
            let ghost before = pipe@;
            let c = pipe.pop().unwrap();
            proof {
                assert(pending(self.pipe@.push(c)) =~= seq![c@] + pending(self.pipe@));
                assert(cmds_v(before) =~= cmds_v(pipe@).push(c@));
                assert(cmds_v(pipe@) + pending(self.pipe@.push(c)) =~= cmds_v(before) + pending(
                    self.pipe@,
                ));
            }
            self.pipe.push(c);
        }
        assert(cmds_v(pipe@) + self@.pipe =~= self@.pipe);
    }

    /// Appends `extra` to the tokens that follow the declaration.
    pub fn with_extra(&mut self, extra: &Vec<Token>)
        ensures
            final(self)@ == (RestV { extra: old(self)@.extra + toks(extra@), ..old(self)@ }),
    {
        extend_tokens(&mut self.extra, extra);
        assert(toks(self.extra@) =~= toks(old(self).extra@) + toks(extra@));
    }

    /// Appends `marker` to the tokens that the output keeps whatever happens.
    pub fn with_marker(&mut self, marker: &Vec<Token>)
        ensures
            final(self)@ == (RestV { marker: old(self)@.marker + toks(marker@), ..old(self)@ }),
    {
        extend_tokens(&mut self.marker, marker);
        assert(toks(self.marker@) =~= toks(old(self).marker@) + toks(marker@));
    }

    /// Makes `this` the current command.
    pub fn set_this(&mut self, this: Path)
        ensures
            final(self)@ == (RestV { this: this@, ..old(self)@ }),
    {
        self.this = this;
    }

    /// Removes the next pending command and returns it.
    pub fn next_pipe(&mut self) -> (r: Option<PipeCommand>)
        ensures
            old(self)@.pipe.len() == 0 ==> r is None && final(self)@ == old(self)@,
            old(self)@.pipe.len() > 0 ==> (r matches Some(c) && c@ == old(self)@.pipe[0]),
            old(self)@.pipe.len() > 0 ==> final(self)@ == (RestV {
                pipe: old(self)@.pipe.drop_first(),
                ..old(self)@
            }),
    {
        let r = self.pipe.pop();
        proof {
            if old(self).pipe@.len() > 0 {
                assert(self@.pipe =~= old(self)@.pipe.drop_first());
            }
        }
        r
    }

    /// A continuation that shares this one's current command and
    /// accumulators, and whose pending commands are `pipe`.
    pub fn fork(&self, pipe: Vec<PipeCommand>) -> (r: TransformRest)
        ensures
            r@ == (RestV { pipe: cmds_v(pipe@), ..self@ }),
    {
        TransformRest {
            this: self.this.duplicate(),
            pipe: into_stack(pipe),
            extra: copy_tokens(&self.extra),
            marker: copy_tokens(&self.marker),
        }
    }

    /// Moves out the pending commands and the extra tokens, and returns them
    /// with the current command and a copy of the marker.
    pub fn take(&mut self) -> (r: TransformRest)
        ensures
            r@ == old(self)@,
            final(self)@ == (RestV { pipe: Seq::empty(), extra: Seq::empty(), ..old(self)@ }),
    {
        let mut pipe = Vec::new();
        core::mem::swap(&mut self.pipe, &mut pipe);
        let mut extra = Vec::new();
        core::mem::swap(&mut self.extra, &mut extra);
        assert(self@.pipe =~= Seq::<CommandV>::empty());
        assert(self@.extra =~= Seq::<TokenV>::empty());
        TransformRest {
            this: self.this.duplicate(),
            pipe,
            extra,
            marker: copy_tokens(&self.marker),
        }
    }

    /// Moves out the extra tokens.
    pub fn take_extra(&mut self) -> (r: Vec<Token>)
        ensures
            toks(r@) == old(self)@.extra,
            final(self)@ == (RestV { extra: Seq::empty(), ..old(self)@ }),
    {
        let mut r = Vec::new();
        core::mem::swap(&mut self.extra, &mut r);
        assert(self@.extra =~= Seq::<TokenV>::empty());
        r
    }

    /// Moves out the marker tokens.
    pub fn take_marker(&mut self) -> (r: Vec<Token>)
        ensures
            toks(r@) == old(self)@.marker,
            final(self)@ == (RestV { marker: Seq::empty(), ..old(self)@ }),
    {
        let mut r = Vec::new();
        core::mem::swap(&mut self.marker, &mut r);
        assert(self@.marker =~= Seq::<TokenV>::empty());
        r
    }

    /// Appends the notation of the continuation to `out`.
    pub fn to_tokens(&self, out: &mut Vec<Token>)
        ensures
            toks(final(out)@) == toks(old(out)@) + rest_tokens(self@),
    {
        let mut cmds: Vec<Token> = Vec::new();
        let n = self.pipe.len();
        let mut i = n;
        while i > 0
            invariant
                i <= n == self.pipe.len(),
                toks(cmds@) == commands_tokens(self@.pipe.take(n - i)),
            decreases i,
        {
            self.pipe[i - 1].to_tokens(&mut cmds);
            proof {
                assert(self@.pipe.take(n - i + 1) =~= self@.pipe.take(n - i).push(
                    self.pipe@[i - 1]@,
                ));
                lemma_commands_tokens_push(self@.pipe.take(n - i), self.pipe@[i - 1]@);
            }
            i = i - 1;
        }
        assert(self@.pipe.take(n as int) =~= self@.pipe);
        push_named(out, "this", &self.this.tokens);
        push_named(out, "pipe", &cmds);
        push_named(out, "extra", &self.extra);
        push_named(out, "marker", &self.marker);
        assert(toks(final(out)@) =~= toks(old(out)@) + rest_tokens(self@));
    }

    /// Reads a continuation from its notation.
    pub fn parse(v: &Vec<Token>) -> (r: Result<TransformRest, Error>)
        ensures
            match (r, parse_rest(toks(v@))) {
                (Ok(a), Ok(b)) => a@ == b,
                (Err(e), Err(f)) => e@ == f,
                _ => false,
            },
    {
        let (this, k1) = parse_named_exec(v, 0, "this")?;
        if !Path::is_path(&this) {
            return Err(Error::new(ErrorKind::Notation, "expected a command path"));
        }
        let (pc, k2) = parse_named_exec(v, k1, "pipe")?;
        let cmds = parse_commands_exec(&pc)?;
        let (extra, k3) = parse_named_exec(v, k2, "extra")?;
        let (marker, k4) = parse_named_exec(v, k3, "marker")?;
        if k4 != v.len() {
            return Err(Error::new(ErrorKind::Notation, "unexpected token"));
        }
        Ok(TransformRest { this: Path { tokens: this }, pipe: into_stack(cmds), extra, marker })
    }
}

} // verus!
