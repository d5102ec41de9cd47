//! The states of the transform state machine.
use vstd::prelude::*;
use crate::command::{CommandV, Path, PipeCommand, cmds_v};
use crate::decl::{DeclV, Declaration};
use crate::tokens::{Token, TokenV, toks};

verus! {

/// A branch of a fork: the name of its declaration and its own commands.
#[derive(Debug, PartialEq, Eq)]
pub struct ForkCommand {
    pub name: String,
    pub pipe: Vec<PipeCommand>,
}

pub struct ForkV {
    pub name: Seq<char>,
    pub pipe: Seq<CommandV>,
}

impl View for ForkCommand {
    type V = ForkV;

    open spec fn view(&self) -> ForkV {
        ForkV { name: self.name@, pipe: cmds_v(self.pipe@) }
    }
}

pub open spec fn forks_v(v: Seq<ForkCommand>) -> Seq<ForkV> {
    v.map_values(|f: ForkCommand| f@)
}

/// The declaration has been turned into its final tokens.
pub struct TransformConsume {
    pub data: Vec<Token>,
}

/// Dump the declaration, the arguments and the continuation.
pub struct TransformDebug {
    pub data: Declaration,
    pub args: Option<Vec<Token>>,
}

/// Run independent pipelines on copies of the declaration.
pub struct TransformFork {
    pub data: Declaration,
    pub fork: Option<Vec<ForkCommand>>,
}

/// Keep piping the declaration, after adding commands and tokens to the
/// continuation.
pub struct TransformPipe {
    pub data: Declaration,
    pub pipe: Option<Vec<PipeCommand>>,
    pub extra: Option<Vec<Token>>,
    pub marker: Option<Vec<Token>>,
}

/// Hand the continuation to the macro at `path`, after adding commands to it.
pub struct TransformResume {
    pub path: Path,
    pub pipe: Option<Vec<PipeCommand>>,
}

/// Define a macro that starts new pipelines from the declaration.
pub struct TransformSave {
    pub data: Declaration,
    pub name: Option<String>,
}

/// What to do next.
pub enum TransformState {
    Consume(TransformConsume),
    Debug(TransformDebug),
    Fork(TransformFork),
    Pipe(TransformPipe),
    Resume(TransformResume),
    Save(TransformSave),
}

/// What a state is.
pub enum StateV {
    Consume { data: Seq<TokenV> },
    Debug { data: DeclV, args: Option<Seq<TokenV>> },
    Fork { data: DeclV, fork: Option<Seq<ForkV>> },
    Pipe {
        data: DeclV,
        pipe: Option<Seq<CommandV>>,
        extra: Option<Seq<TokenV>>,
        marker: Option<Seq<TokenV>>,
    },
    Resume { path: Seq<TokenV>, pipe: Option<Seq<CommandV>> },
    Save { data: DeclV, name: Option<Seq<char>> },
}

pub open spec fn opt_toks(o: Option<Vec<Token>>) -> Option<Seq<TokenV>> {
    match o {
        Some(v) => Some(toks(v@)),
        None => None,
    }
}

pub open spec fn opt_cmds(o: Option<Vec<PipeCommand>>) -> Option<Seq<CommandV>> {
    match o {
        Some(v) => Some(cmds_v(v@)),
        None => None,
    }
}

pub open spec fn opt_forks(o: Option<Vec<ForkCommand>>) -> Option<Seq<ForkV>> {
    match o {
        Some(v) => Some(forks_v(v@)),
        None => None,
    }
}

impl View for TransformState {
    type V = StateV;

    open spec fn view(&self) -> StateV {
        match self {
            TransformState::Consume(s) => StateV::Consume { data: toks(s.data@) },
            TransformState::Debug(s) => StateV::Debug { data: s.data@, args: opt_toks(s.args) },
            TransformState::Fork(s) => StateV::Fork {
                data: s.data@,
                fork: opt_forks(s.fork),
            },
            TransformState::Pipe(s) => StateV::Pipe {
                data: s.data@,
                pipe: opt_cmds(s.pipe),
                extra: opt_toks(s.extra),
                marker: opt_toks(s.marker),
            },
            TransformState::Resume(s) => StateV::Resume { path: s.path@, pipe: opt_cmds(s.pipe) },
            TransformState::Save(s) => StateV::Save {
                data: s.data@,
                name: match s.name {
                    Some(n) => Some(n@),
                    None => None,
                },
            },
        }
    }
}

/// The plain piping state of a declaration.
pub open spec fn pipe_v(d: DeclV) -> StateV {
    StateV::Pipe { data: d, pipe: None, extra: None, marker: None }
}

impl TransformState {
    pub fn consume(data: Vec<Token>) -> (r: TransformConsume)
        ensures
            toks(r.data@) == toks(data@),
    {
        TransformConsume { data }
    }

    pub fn debug(data: Declaration) -> (r: TransformDebug)
        ensures
            r.data@ == data@,
            r.args is None,
    {
        TransformDebug { data, args: None }
    }

    pub fn fork(data: Declaration) -> (r: TransformFork)
        ensures
            r.data@ == data@,
            r.fork is None,
    {
        TransformFork { data, fork: None }
    }

    pub fn pipe(data: Declaration) -> (r: TransformPipe)
        ensures
            r.data@ == data@,
            r.pipe is None,
            r.extra is None,
            r.marker is None,
    {
        TransformPipe { data, pipe: None, extra: None, marker: None }
    }

    pub fn resume(path: Path) -> (r: TransformResume)
        ensures
            r.path@ == path@,
            r.pipe is None,
    {
        TransformResume { path, pipe: None }
    }

    pub fn save(data: Declaration) -> (r: TransformSave)
        ensures
            r.data@ == data@,
            r.name is None,
    {
        TransformSave { data, name: None }
    }
}

impl TransformConsume {
    pub fn build(self) -> (r: TransformState)
        ensures
            r@ == (StateV::Consume { data: toks(self.data@) }),
    {
        TransformState::Consume(self)
    }
}

impl TransformDebug {
    /// Sets the arguments to dump.
    pub fn args(self, args: Vec<Token>) -> (r: Self)
        ensures
            r.data@ == self.data@,
            opt_toks(r.args) == Some(toks(args@)),
    {
        TransformDebug { data: self.data, args: Some(args) }
    }

    pub fn build(self) -> (r: TransformState)
        ensures
            r@ == (StateV::Debug { data: self.data@, args: opt_toks(self.args) }),
    {
        TransformState::Debug(self)
    }
}

impl TransformFork {
    /// Sets the branches.
    pub fn fork(self, fork: Vec<ForkCommand>) -> (r: Self)
        ensures
            r.data@ == self.data@,
            r.fork == Some(fork),
    {
        TransformFork { data: self.data, fork: Some(fork) }
    }

    pub fn build(self) -> (r: TransformState)
        ensures
            r == TransformState::Fork(self),
    {
        TransformState::Fork(self)
    }
}

impl TransformPipe {
    /// Sets the commands to run before the pending ones.
    pub fn pipe(self, pipe: Vec<PipeCommand>) -> (r: Self)
        ensures
            r.data@ == self.data@,
            opt_cmds(r.pipe) == Some(cmds_v(pipe@)),
            opt_toks(r.extra) == opt_toks(self.extra),
            opt_toks(r.marker) == opt_toks(self.marker),
    {
        TransformPipe { data: self.data, pipe: Some(pipe), extra: self.extra, marker: self.marker }
    }

    /// Sets the tokens to add to the extra tokens.
    pub fn extra(self, extra: Vec<Token>) -> (r: Self)
        ensures
            r.data@ == self.data@,
            opt_cmds(r.pipe) == opt_cmds(self.pipe),
            opt_toks(r.extra) == Some(toks(extra@)),
            opt_toks(r.marker) == opt_toks(self.marker),
    {
        TransformPipe { data: self.data, pipe: self.pipe, extra: Some(extra), marker: self.marker }
    }

    /// Sets the tokens to add to the marker.
    pub fn marker(self, marker: Vec<Token>) -> (r: Self)
        ensures
            r.data@ == self.data@,
            opt_cmds(r.pipe) == opt_cmds(self.pipe),
            opt_toks(r.extra) == opt_toks(self.extra),
            opt_toks(r.marker) == Some(toks(marker@)),
    {
        TransformPipe { data: self.data, pipe: self.pipe, extra: self.extra, marker: Some(marker) }
    }

    pub fn build(self) -> (r: TransformState)
        ensures
            r@ == (StateV::Pipe {
                data: self.data@,
                pipe: opt_cmds(self.pipe),
                extra: opt_toks(self.extra),
                marker: opt_toks(self.marker),
            }),
    {
        TransformState::Pipe(self)
    }
}

impl TransformResume {
    /// Sets the commands to run before the pending ones.
    pub fn pipe(self, pipe: Vec<PipeCommand>) -> (r: Self)
        ensures
            r.path@ == self.path@,
            opt_cmds(r.pipe) == Some(cmds_v(pipe@)),
    {
        TransformResume { path: self.path, pipe: Some(pipe) }
    }

    pub fn build(self) -> (r: TransformState)
        ensures
            r@ == (StateV::Resume { path: self.path@, pipe: opt_cmds(self.pipe) }),
    {
        TransformState::Resume(self)
    }
}

impl TransformSave {
    /// Sets the name of the macro to define.
    pub fn name(self, name: String) -> (r: Self)
        ensures
            r.data@ == self.data@,
            r.name == Some(name),
    {
        TransformSave { data: self.data, name: Some(name) }
    }

    pub fn build(self) -> (r: TransformState)
        ensures
            r == TransformState::Save(self),
    {
        TransformState::Save(self)
    }
}

} // verus!
