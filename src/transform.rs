//! The driver: runs the state machine until it emits its final tokens.
use vstd::prelude::*;
use crate::builtin::{Builtin, command_builtin, maybe_builtin};
use crate::command::{CommandV, PipeCommand, parse_command, parse_commands};
use crate::commands::{
    Extend, Finish, Rename, extend_as_spec, Save, Select, SelectAttr, Wrap, Wrapped, debug_spec,
    extend_declines, extend_spec, finish_spec, rename_spec, save_spec,
    select_attr_spec, select_spec, wrap_spec, wrapped_spec,
};
use crate::decl::{DeclV, Declaration, Duplicate, decl_tokens};
use crate::emit::{
    builtin_marker, builtin_marker_tokens, call_body, call_body_tokens, call_tokens, debug_macro, debug_tokens, in_crate,
    macro_call, qualified, resume_call, resume_tokens, save_call, save_tokens,
};
use crate::error::{Error, ErrorKind, ErrorV};
use crate::rest::{RestV, TransformRest};
use crate::state::{
    ForkCommand, ForkV, StateV, TransformConsume, TransformDebug, TransformFork, TransformPipe,
    TransformResume, TransformSave, TransformState, forks_v, pipe_v,
};
use crate::tokens::{Token, TokenV, extend_tokens, group_close, toks};

verus! {

/// What dispatching a command does.
pub enum DispatchV {
    /// A built-in ran and gave the next state.
    Executed(StateV),
    /// A built-in failed.
    Failed(ErrorV),
    /// No built-in takes the command: it is handed off.
    Unsupported,
}

/// What the built-in `b` makes of the declaration `d` and the arguments.
pub open spec fn builtin_spec(b: Builtin, d: DeclV, args: Seq<TokenV>) -> Result<StateV, ErrorV> {
    match b {
        Builtin::Debug => Ok(debug_spec(d, args)),
        Builtin::Extend => extend_spec(d, args),
        Builtin::Finish => finish_spec(d, args),
        Builtin::Rename => rename_spec(d, args),
        Builtin::Save => save_spec(d, args),
        Builtin::Select => select_spec(d, args),
        Builtin::SelectAttr => select_attr_spec(d, args),
        Builtin::Wrap => wrap_spec(d, args),
        Builtin::Wrapped => wrapped_spec(d, args),
    }
}

/// Dispatch by exact name to the built-ins; anything else is handed off.
/// `extend(as declaration)` is handed to the `extend` command's own macro:
/// its arguments hold a declaration, which is read with syn, where the
/// library's values cannot go.
pub open spec fn dispatch(c: CommandV, d: DeclV) -> DispatchV {
    match command_builtin(c) {
        None => DispatchV::Unsupported,
        Some(b) => if b == Builtin::Extend && extend_declines(c.args) {
            DispatchV::Unsupported
        } else {
            match builtin_spec(b, d, c.args) {
                Ok(s) => DispatchV::Executed(s),
                Err(e) => DispatchV::Failed(e),
            }
        },
    }
}

/// The outcome of dispatching a command.
pub enum ExecuteState {
    Executed { state: TransformState },
    Unsupported { cmd: PipeCommand, data: Declaration },
}

/// Runs the built-ins; leaves any other command to whoever defines it.
pub struct DefaultExecutor;

impl DefaultExecutor {
    pub fn execute(cmd: PipeCommand, data: Declaration) -> (r: Result<ExecuteState, Error>)
        ensures
            match dispatch(cmd@, data@) {
                DispatchV::Executed(s) => r matches Ok(ExecuteState::Executed { state }) && state@ == s,
                DispatchV::Failed(e) => r matches Err(x) && x@ == e,
                DispatchV::Unsupported => r matches Ok(ExecuteState::Unsupported { cmd: c, data: d })
                    && c@ == cmd@ && d@ == data@,
            },
    {
        let b = match maybe_builtin(&cmd) {
            None => {
                return Ok(ExecuteState::Unsupported { cmd, data });
            },
            Some(b) => b,
        };
        let args = &cmd.args;
        let r = match b {
            Builtin::Debug => Ok(crate::commands::Debug::transform(data, args)),
            Builtin::Extend => {
                if args.len() > 0 && args[0].is_ident("as") {
                    assert(toks(args@)[0] == args@[0]@);
                    return Ok(ExecuteState::Unsupported { cmd, data });
                }
                proof {
                    if args.len() > 0 {
                        assert(toks(args@)[0] == args@[0]@);
                    }
                }
                Extend::transform(data, args)
            },
            Builtin::Finish => Finish::transform(data, args),
            Builtin::Rename => Rename::transform(data, args),
            Builtin::Save => Save::transform(data, args),
            Builtin::Select => Select::transform(data, args),
            Builtin::SelectAttr => SelectAttr::transform(data, args),
            Builtin::Wrap => Wrap::transform(data, args),
            Builtin::Wrapped => Wrapped::transform(data, args),
        };
        match r {
            Ok(state) => Ok(ExecuteState::Executed { state }),
            Err(e) => Err(e),
        }
    }
}

/// The size of a command, for the measure that shows that a run ends.
pub open spec fn weight(c: CommandV) -> nat {
    (c.args.len() + 1) as nat
}

pub open spec fn weights(cs: Seq<CommandV>) -> nat
    decreases cs.len(),
{
    if cs.len() == 0 {
        0
    } else {
        weight(cs[0]) + weights(cs.drop_first())
    }
}

pub open spec fn fork_weight(fs: Seq<ForkV>) -> nat
    decreases fs.len(),
{
    if fs.len() == 0 {
        0
    } else {
        weights(fs[0].pipe) + 1 + fork_weight(fs.drop_first())
    }
}

/// The work that a state still holds.
pub open spec fn state_weight(s: StateV) -> nat {
    match s {
        StateV::Pipe { pipe: Some(p), .. } => weights(p),
        StateV::Fork { fork: Some(f), .. } => fork_weight(f) + 1,
        _ => 0,
    }
}

/// How far a state is from consuming.
pub open spec fn rank(s: StateV) -> nat {
    match s {
        StateV::Consume { .. } => 0,
        StateV::Pipe { .. } => 2,
        _ => 1,
    }
}

/// The work left in a state and its continuation.
pub open spec fn measure(s: StateV, r: RestV) -> nat {
    state_weight(s) + weights(r.pipe)
}

/// `r` after the pending commands and the extra tokens are moved out.
pub open spec fn taken(r: RestV) -> RestV {
    RestV { pipe: Seq::empty(), extra: Seq::empty(), ..r }
}

/// `r` with the contributions of a piping state.
pub open spec fn hooked(
    r: RestV,
    pipe: Option<Seq<CommandV>>,
    extra: Option<Seq<TokenV>>,
    marker: Option<Seq<TokenV>>,
) -> RestV {
    RestV {
        this: r.this,
        pipe: match pipe {
            Some(p) => p + r.pipe,
            None => r.pipe,
        },
        extra: match extra {
            Some(e) => r.extra + e,
            None => r.extra,
        },
        marker: match marker {
            Some(m) => r.marker + m,
            None => r.marker,
        },
    }
}

/// An error of the protocol, at the current command.
pub open spec fn protocol_error(kind: ErrorKind, d: Seq<char>, r: RestV) -> ErrorV {
    ErrorV { kind, detail: d, command: Some(r.this) }
}

/// What a handed-off command is called as: a built-in through its own macro
/// in this crate, anything else by its path.
pub open spec fn handoff_path(c: CommandV) -> Seq<TokenV> {
    if command_builtin(c) is Some {
        in_crate(c.path)
    } else {
        c.path
    }
}

/// What the printer gave during a run, which depends on more than the tokens
/// printed: the string literal of the debugging macro, when the run ends in
/// one, or what it gave in each branch, when the run forks.
pub enum Printed {
    Text(Seq<char>),
    Branches(Seq<Printed>),
}

pub open spec fn printed_text(o: Printed) -> Seq<char> {
    match o {
        Printed::Text(q) => q,
        _ => Seq::empty(),
    }
}

pub open spec fn printed_branches(o: Printed) -> Seq<Printed> {
    match o {
        Printed::Branches(b) => b,
        _ => Seq::empty(),
    }
}

pub open spec fn first_printed(bs: Seq<Printed>) -> Printed {
    if bs.len() > 0 {
        bs[0]
    } else {
        Printed::Text(Seq::empty())
    }
}

pub open spec fn rest_printed(bs: Seq<Printed>) -> Seq<Printed> {
    if bs.len() > 0 {
        bs.drop_first()
    } else {
        bs
    }
}

/// The body that the debugging macro dumps: `data={d} args={args} rest={r}`.
pub open spec fn debug_body(data: DeclV, args: Option<Seq<TokenV>>, r: RestV) -> Seq<TokenV> {
    call_body(
        data,
        match args {
            Some(a) => a,
            None => Seq::empty(),
        },
        r,
    )
}

/// The result of running state `s` with continuation `r`, where the printer
/// gave `o`: the output tokens or an error, and the continuation at the end.
#[verifier::opaque]
pub open spec fn run(s: StateV, r: RestV, o: Printed) -> (Result<Seq<TokenV>, ErrorV>, RestV)
    decreases measure(s, r), rank(s),
    via run_decreases
{
    match s {
        StateV::Consume { data } => if r.pipe.len() > 0 {
            (
                Err(
                    protocol_error(
                        ErrorKind::ConsumeNotLast,
                        "a consume command should not be followed by other commands"@,
                        r,
                    ),
                ),
                r,
            )
        } else {
            (Ok(data + r.extra), RestV { extra: Seq::empty(), ..r })
        },
        StateV::Debug { data, args } => run(
            StateV::Consume { data: debug_tokens(data.name, printed_text(o), debug_body(data, args, r)) },
            taken(r),
            o,
        ),
        StateV::Fork { data, fork } => match fork {
            None => run(StateV::Consume { data: decl_tokens(data) }, r, o),
            Some(fs) => match run_forks(data, fs, r, printed_branches(o)) {
                Err(e) => (Err(e), r),
                Ok(t) => run(StateV::Consume { data: t }, r, o),
            },
        },
        StateV::Pipe { data, pipe, extra, marker } => {
            let r1 = hooked(r, pipe, extra, marker);
            if r1.pipe.len() == 0 {
                (
                    Err(
                        protocol_error(
                            ErrorKind::PipeNotConsumed,
                            "a pipe command should be consumed"@,
                            r1,
                        ),
                    ),
                    r1,
                )
            } else {
                let c = r1.pipe[0];
                let r2 = RestV { this: c.path, pipe: r1.pipe.drop_first(), ..r1 };
                match dispatch(c, data) {
                    DispatchV::Failed(e) => (Err(ErrorV { command: Some(c.path), ..e }), r2),
                    DispatchV::Executed(s2) => run(
                        s2,
                        RestV { marker: r2.marker + builtin_marker(c.path), ..r2 },
                        o,
                    ),
                    DispatchV::Unsupported => run(
                        StateV::Consume {
                            data: macro_call(handoff_path(c), call_body(data, c.args, r2)),
                        },
                        taken(r2),
                        o,
                    ),
                }
            }
        },
        StateV::Resume { path, pipe } => {
            let r1 = RestV {
                this: path,
                pipe: match pipe {
                    Some(p) => p + r.pipe,
                    None => r.pipe,
                },
                ..r
            };
            run(StateV::Consume { data: resume_tokens(path, r1) }, taken(r1), o)
        },
        StateV::Save { data, name } => run(
            StateV::Consume {
                data: save_tokens(
                    data,
                    match name {
                        Some(n) => n,
                        None => data.name,
                    },
                    r.extra,
                ),
            },
            RestV { extra: Seq::empty(), ..r },
            o,
        ),
    }
}

/// The outputs of the branches of a fork, one after the other: each branch
/// pipes a copy of `d` under its own name through its own commands.
pub open spec fn run_forks(d: DeclV, fs: Seq<ForkV>, r: RestV, bs: Seq<Printed>) -> Result<
    Seq<TokenV>,
    ErrorV,
>
    decreases fork_weight(fs), 3nat,
    via run_forks_decreases
{
    if fs.len() == 0 {
        Ok(Seq::empty())
    } else {
        let f = fs[0];
        match run(pipe_v(DeclV { name: f.name, ..d }), RestV { pipe: f.pipe, ..r }, first_printed(bs)).0 {
            Err(e) => Err(e),
            Ok(t) => match run_forks(d, fs.drop_first(), r, rest_printed(bs)) {
                Err(e) => Err(e),
                Ok(u) => Ok(t + u),
            },
        }
    }
}

/// What a consuming state gives, whatever the printer gave.
pub proof fn lemma_run_consume(data: Seq<TokenV>, r: RestV, o: Printed)
    ensures
        run(StateV::Consume { data }, r, o) == if r.pipe.len() > 0 {
            (
                Err::<Seq<TokenV>, ErrorV>(
                    protocol_error(
                        ErrorKind::ConsumeNotLast,
                        "a consume command should not be followed by other commands"@,
                        r,
                    ),
                ),
                r,
            )
        } else {
            (Ok::<Seq<TokenV>, ErrorV>(data + r.extra), RestV { extra: Seq::empty(), ..r })
        },
{
    reveal(run);
}

/// What a forking state gives.
pub proof fn lemma_run_fork(data: DeclV, fork: Option<Seq<ForkV>>, r: RestV, o: Printed)
    ensures
        run(StateV::Fork { data, fork }, r, o) == match fork {
            None => run(StateV::Consume { data: decl_tokens(data) }, r, o),
            Some(fs) => match run_forks(data, fs, r, printed_branches(o)) {
                Err(e) => (Err::<Seq<TokenV>, ErrorV>(e), r),
                Ok(t) => run(StateV::Consume { data: t }, r, o),
            },
        },
{
    reveal(run);
}

/// The outputs of the branches: the first branch's, then the others'.
pub proof fn lemma_run_forks(d: DeclV, fs: Seq<ForkV>, r: RestV, bs: Seq<Printed>)
    requires
        fs.len() > 0,
    ensures
        run_forks(d, fs, r, bs) == match run(
            pipe_v(DeclV { name: fs[0].name, ..d }),
            RestV { pipe: fs[0].pipe, ..r },
            first_printed(bs),
        ).0 {
            Err(e) => Err(e),
            Ok(t) => match run_forks(d, fs.drop_first(), r, rest_printed(bs)) {
                Err(e) => Err(e),
                Ok(u) => Ok(t + u),
            },
        },
{
    reveal(run);
}

pub proof fn lemma_weights_concat(a: Seq<CommandV>, b: Seq<CommandV>)
    ensures
        weights(a + b) == weights(a) + weights(b),
    decreases a.len(),
{
    if a.len() == 0 {
        assert(a + b =~= b);
    } else {
        lemma_weights_concat(a.drop_first(), b);
        assert((a + b).drop_first() =~= a.drop_first() + b);
    }
}

proof fn lemma_first_open_ge(s: Seq<TokenV>, from: int)
    requires
        0 <= from,
    ensures
        from <= s.len() ==> crate::command::first_open(s, from) >= from,
    decreases s.len() - from,
{
    if 0 <= from < s.len() && !(s[from] is Open) {
        lemma_first_open_ge(s, from + 1);
    }
}

/// A command read from the tokens is no larger than the tokens it took.
proof fn lemma_parse_command_weight(s: Seq<TokenV>, pos: int)
    ensures
        parse_command(s, pos) matches Ok((c, n)) ==> weight(c) + pos + 3 <= n <= s.len(),
{
    if parse_command(s, pos) is Ok {
        let o = crate::command::first_open(s, pos + 2);
        lemma_first_open_ge(s, pos + 2);
        let e = group_close(s, o)->Some_0;
        let f = choose|f: int| crate::tokens::closes_at(s, o, f);
        assert(crate::tokens::closes_at(s, o, f));
    }
}

proof fn lemma_parse_commands_weight(s: Seq<TokenV>, pos: int)
    requires
        0 <= pos <= s.len(),
    ensures
        parse_commands(s, pos) matches Ok(cs) ==> weights(cs) <= s.len() - pos,
    decreases s.len() - pos,
{
    if pos < s.len() {
        lemma_parse_command_weight(s, pos);
        if let Ok((c, n)) = parse_command(s, pos) {
            if n > pos {
                lemma_parse_commands_weight(s, n);
                if let Ok(cs) = parse_commands(s, n) {
                    assert((seq![c] + cs).drop_first() =~= cs);
                }
            }
        }
    }
}

/// A built-in hands back no more work than its command held.
pub proof fn lemma_dispatch_weight(c: CommandV, d: DeclV)
    ensures
        dispatch(c, d) matches DispatchV::Executed(s2) ==> state_weight(s2) <= weight(c) && (
        state_weight(s2) < weight(c) || rank(s2) < 2),
{
}

#[via_fn]
proof fn run_decreases(s: StateV, r: RestV, o: Printed) {
    match s {
        StateV::Pipe { data, pipe, extra, marker } => {
            let r1 = hooked(r, pipe, extra, marker);
            if let Some(p) = pipe {
                lemma_weights_concat(p, r.pipe);
            }
            if r1.pipe.len() > 0 {
                let c = r1.pipe[0];
                lemma_dispatch_weight(c, data);
            }
        },
        _ => {},
    }
}

#[via_fn]
proof fn run_forks_decreases(d: DeclV, fs: Seq<ForkV>, r: RestV, bs: Seq<Printed>) {
}

/// The view of a result of the driver.
pub open spec fn result_v(r: Result<Vec<Token>, Error>) -> Result<Seq<TokenV>, ErrorV> {
    match r {
        Ok(t) => Ok(toks(t@)),
        Err(e) => Err(e@),
    }
}

/// `(a, b)` comes before `(c, d)` in lexicographic order.
pub open spec fn lex_before(a: nat, b: nat, c: nat, d: nat) -> bool {
    a < c || (a == c && b < d)
}

/// One step from a state that is neither consuming nor forking: the next
/// state, with the same result of the run and less work left.
pub open spec fn steps_to(s: StateV, r: RestV, s2: StateV, r2: RestV) -> bool {
    &&& forall|o: Printed| #[trigger] run(s2, r2, o) == run(s, r, o)
    &&& lex_before(measure(s2, r2), rank(s2), measure(s, r), rank(s))
}

fn step_debug(st: TransformDebug, rest: &mut TransformRest) -> (r: (TransformState, Ghost<Seq<char>>))
    ensures
        ({
            let sv = StateV::Debug { data: st.data@, args: crate::state::opt_toks(st.args) };
            &&& r.0@ is Consume
            &&& lex_before(measure(r.0@, final(rest)@), rank(r.0@), measure(sv, old(rest)@), rank(sv))
            &&& forall|o: Printed|
                printed_text(o) == r.1@ ==> #[trigger] run(sv, old(rest)@, o) == run(r.0@, final(rest)@, o)
        }),
{
    reveal(run);
    let TransformDebug { data, args } = st;
    let ghost av = crate::state::opt_toks(args);
    let moved = rest.take();
    let args = match args {
        Some(a) => a,
        None => Vec::new(),
    };
    assert(toks(args@) =~= match av {
        Some(a) => a,
        None => Seq::<TokenV>::empty(),
    });
    assert(rest@ =~= taken(old(rest)@));
    let body = call_body_tokens(&data, &args, &moved);
    let literal = crate::text::printed_literal(&body);
    let ghost q = literal@;
    let t = debug_macro(&data.name, literal, &body);
    (TransformState::Consume(TransformConsume { data: t }), Ghost(q))
}

fn step_resume(st: TransformResume, rest: &mut TransformRest) -> (r: TransformState)
    ensures
        steps_to(StateV::Resume { path: st.path@, pipe: crate::state::opt_cmds(st.pipe) }, old(rest)@, r@, final(rest)@),
{
    reveal(run);
    let TransformResume { path, pipe } = st;
    match pipe {
        Some(p) => rest.with_pipe(p),
        None => {},
    }
    rest.set_this(path.duplicate());
    let moved = rest.take();
    let t = resume_call(&path.tokens, &moved);
    TransformState::Consume(TransformConsume { data: t })
}

fn step_save(st: TransformSave, rest: &mut TransformRest) -> (r: TransformState)
    ensures
        steps_to(
            StateV::Save {
                data: st.data@,
                name: match st.name {
                    Some(n) => Some(n@),
                    None => None,
                },
            },
            old(rest)@,
            r@,
            final(rest)@,
        ),
{
    reveal(run);
    let TransformSave { data, name } = st;
    let name = match name {
        Some(n) => n,
        None => data.name.clone(),
    };
    let extra = rest.take_extra();
    let t = save_call(&data, name, &extra);
    TransformState::Consume(TransformConsume { data: t })
}

#[verifier::rlimit(40)]
fn step_pipe(st: TransformPipe, rest: &mut TransformRest) -> (r: Result<TransformState, Error>)
    ensures
        ({
            let sv = StateV::Pipe {
                data: st.data@,
                pipe: crate::state::opt_cmds(st.pipe),
                extra: crate::state::opt_toks(st.extra),
                marker: crate::state::opt_toks(st.marker),
            };
            match r {
                Ok(s2) => steps_to(sv, old(rest)@, s2@, final(rest)@),
                Err(e) => forall|o: Printed| (Err::<Seq<TokenV>, ErrorV>(e@), final(rest)@) == #[trigger] run(sv, old(rest)@, o),
            }
        }),
{
    reveal(run);
    let ghost rv = rest@;
    let TransformPipe { data, pipe, extra, marker } = st;
    let ghost pv = crate::state::opt_cmds(pipe);
    let ghost ev = crate::state::opt_toks(extra);
    let ghost mv = crate::state::opt_toks(marker);
    proof {
        if let Some(p) = pv {
            lemma_weights_concat(p, rv.pipe);
        }
    }
    match pipe {
        Some(p) => rest.with_pipe(p),
        None => {},
    }
    match extra {
        Some(e) => rest.with_extra(&e),
        None => {},
    }
    match marker {
        Some(m) => rest.with_marker(&m),
        None => {},
    }
    let ghost r1 = rest@;
    assert(r1 == hooked(rv, pv, ev, mv));
    let cmd = match rest.next_pipe() {
        None => {
            let e = Error::new(ErrorKind::PipeNotConsumed, "a pipe command should be consumed");
            return Err(e.in_command(&rest.this.tokens));
        },
        Some(c) => c,
    };
    let path = cmd.path.duplicate();
    rest.set_this(cmd.path.duplicate());
    let ghost r2 = rest@;
    let ghost cv = cmd@;
    proof {
        lemma_dispatch_weight(cv, data@);
        assert(r1.pipe =~= seq![cv] + r2.pipe);
        lemma_weights_concat(seq![cv], r2.pipe);
        assert(seq![cv].drop_first() =~= Seq::<CommandV>::empty());
    }
    let builtin = maybe_builtin(&cmd).is_some();
    match DefaultExecutor::execute(cmd, data) {
        Err(e) => Err(e.in_command(&path.tokens)),
        Ok(ExecuteState::Executed { state: s }) => {
            let m = builtin_marker_tokens(&path.tokens);
            rest.with_marker(&m);
            Ok(s)
        },
        Ok(ExecuteState::Unsupported { cmd, data }) => {
            let hp = if builtin {
                qualified(&cmd.path.tokens)
            } else {
                crate::tokens::copy_tokens(&cmd.path.tokens)
            };
            let moved = rest.take();
            let t = call_tokens(&hp, &data, &cmd.args, &moved);
            Ok(TransformState::Consume(TransformConsume { data: t }))
        },
    }
}

/// Runs each branch of a fork on a copy of `data`, and joins their outputs;
/// also gives what the printer gave in each branch.
fn run_branches(data: Declaration, fs: Vec<ForkCommand>, rest: &TransformRest) -> (r: (
    Result<Vec<Token>, Error>,
    Ghost<Seq<Printed>>,
))
    ensures
        result_v(r.0) == run_forks(data@, forks_v(fs@), rest@, r.1@),
    decreases fork_weight(forks_v(fs@)) + 1 + weights(rest@.pipe), 0nat,
{
    reveal(run);
    let ghost d0 = data@;
    let ghost fs0 = forks_v(fs@);
    let ghost rv = rest@;
    let mut remaining = fs;
    let mut tokens: Vec<Token> = Vec::new();
    let ghost mut bs: Seq<Printed> = Seq::empty();
    while remaining.len() > 0
        invariant
            fs0 == forks_v(fs@),
            data@ == d0,
            rest@ == rv,
            forall|bt: Seq<Printed>|
                #[trigger] run_forks(d0, fs0, rv, bs + bt) == match run_forks(d0, forks_v(remaining@), rv, bt) {
                    Ok(u) => Ok(toks(tokens@) + u),
                    Err(e) => Err::<Seq<TokenV>, ErrorV>(e),
                },
            fork_weight(forks_v(remaining@)) <= fork_weight(fs0),
        decreases remaining.len(),
    {
        let ghost before = forks_v(remaining@);
        let f = remaining.remove(0);
        assert(forks_v(remaining@) =~= before.drop_first());
        assert(before[0] == f@);
        let ForkCommand { name, pipe } = f;
        let mut d = data.duplicate();
        d.name = name;
        let mut sub = rest.fork(pipe);
        assert(d@ == (DeclV { name: f@.name, ..d0 }));
        let st = TransformState::Pipe(TransformState::pipe(d));
        assert(st@ == pipe_v(DeclV { name: f@.name, ..d0 }));
        assert(sub@ == (RestV { pipe: f@.pipe, ..rv }));
        assert(fork_weight(before) == weights(f@.pipe) + 1 + fork_weight(before.drop_first()));
        assert(measure(st@, sub@) == weights(f@.pipe));
        assert(measure(st@, sub@) < fork_weight(fs0) + 1 + weights(rv.pipe));
        let (res, Ghost(oi)) = drive(st, &mut sub);
        proof {
            assert forall|bt: Seq<Printed>| #[trigger] run_forks(d0, before, rv, seq![oi] + bt) == match run_forks(
                d0,
                forks_v(remaining@),
                rv,
                bt,
            ) {
                Ok(u) => match result_v(res) {
                    Ok(t) => Ok(t + u),
                    Err(e) => Err(e),
                },
                Err(e) => match result_v(res) {
                    Ok(_) => Err(e),
                    Err(e2) => Err(e2),
                },
            } by {
                lemma_run_forks(d0, before, rv, seq![oi] + bt);
                assert(first_printed(seq![oi] + bt) == oi);
                assert(rest_printed(seq![oi] + bt) =~= bt);
            }
            assert forall|bt: Seq<Printed>| #[trigger] (bs.push(oi) + bt) == bs + (seq![oi] + bt) by {
                assert(bs.push(oi) + bt =~= bs + (seq![oi] + bt));
            }
        }
        let t = match res {
            Ok(t) => t,
            Err(e) => {
                proof {
                    assert(run_forks(d0, fs0, rv, bs + (seq![oi] + Seq::<Printed>::empty()))
                        == Err::<Seq<TokenV>, ErrorV>(e@));
                    assert(bs + (seq![oi] + Seq::<Printed>::empty()) =~= bs.push(oi));
                }
                return (Err(e), Ghost(bs.push(oi)));
            },
        };
        let ghost tb = toks(tokens@);
        extend_tokens(&mut tokens, &t);
        proof {
            assert forall|bt: Seq<Printed>| #[trigger] run_forks(d0, fs0, rv, bs.push(oi) + bt) == match run_forks(
                d0,
                forks_v(remaining@),
                rv,
                bt,
            ) {
                Ok(u) => Ok(toks(tokens@) + u),
                Err(e) => Err::<Seq<TokenV>, ErrorV>(e),
            } by {
                assert(bs.push(oi) + bt == bs + (seq![oi] + bt));
                match run_forks(d0, forks_v(remaining@), rv, bt) {
                    Ok(u) => {
                        assert(tb + (toks(t@) + u) =~= toks(tokens@) + u);
                    },
                    Err(_) => {},
                }
            }
            bs = bs.push(oi);
        }
    }
    assert(toks(tokens@) + Seq::<TokenV>::empty() =~= toks(tokens@));
    assert(bs + Seq::<Printed>::empty() =~= bs);
    assert(run_forks(d0, forks_v(remaining@), rv, Seq::<Printed>::empty()) == Ok::<Seq<TokenV>, ErrorV>(Seq::empty()));
    assert(run_forks(d0, fs0, rv, bs + Seq::<Printed>::empty()) == Ok::<Seq<TokenV>, ErrorV>(toks(tokens@) + Seq::<TokenV>::empty()));
    (Ok(tokens), Ghost(bs))
}

/// Runs `state` against `rest` until it emits its final tokens; also gives
/// what the printer gave.
#[verifier::rlimit(40)]
fn drive(state: TransformState, rest: &mut TransformRest) -> (r: (Result<Vec<Token>, Error>, Ghost<Printed>))
    ensures
        (result_v(r.0), final(rest)@) == run(state@, old(rest)@, r.1@),
    decreases measure(state@, old(rest)@), rank(state@),
{
    let ghost s0 = state@;
    let ghost r0 = rest@;
    let ghost mut og = Printed::Text(Seq::empty());
    let ghost mut fixed = false;
    let mut cur = state;
    loop
        invariant
            s0 == state@,
            r0 == old(rest)@,
            !fixed ==> forall|o: Printed| #[trigger] run(cur@, rest@, o) == run(s0, r0, o),
            fixed ==> cur@ is Consume,
            fixed ==> forall|o: Printed| #[trigger] run(cur@, rest@, o) == run(s0, r0, og),
            measure(cur@, rest@) < measure(s0, r0) || (measure(cur@, rest@) == measure(s0, r0)
                && rank(cur@) <= rank(s0)),
        decreases measure(cur@, rest@), rank(cur@),
    {
        let ghost sv = cur@;
        let ghost rv = rest@;
        assert(run(sv, rv, og) == run(s0, r0, og));
        match cur {
            TransformState::Consume(TransformConsume { data }) => {
                proof {
                    lemma_run_consume(toks(data@), rv, og);
                }
                if !rest.is_empty() {
                    let e = Error::new(
                        ErrorKind::ConsumeNotLast,
                        "a consume command should not be followed by other commands",
                    );
                    let e2 = e.in_command(&rest.this.tokens);
                    return (Err(e2), Ghost(og));
                }
                let mut data = data;
                let extra = rest.take_extra();
                let ghost dv = toks(data@);
                extend_tokens(&mut data, &extra);
                assert(toks(data@) =~= dv + toks(extra@));
                return (Ok(data), Ghost(og));
            },
            TransformState::Debug(st) => {
                let (s, Ghost(q)) = step_debug(st, rest);
                proof {
                    let o1 = Printed::Text(q);
                    assert(run(sv, rv, o1) == run(s@, rest@, o1));
                    assert forall|o: Printed| #[trigger] run(s@, rest@, o) == run(s0, r0, o1) by {
                        lemma_run_consume(s@->Consume_data, rest@, o);
                        lemma_run_consume(s@->Consume_data, rest@, o1);
                    }
                    og = o1;
                    fixed = true;
                }
                cur = s;
            },
            TransformState::Fork(TransformFork { data, fork }) => {
                let ghost fv = crate::state::opt_forks(fork);
                match fork {
                    None => {
                        cur = TransformState::Consume(TransformConsume { data: data.into_tokens() });
                        proof {
                            assert forall|o: Printed| #[trigger] run(cur@, rest@, o) == run(sv, rv, o) by {
                                lemma_run_fork(data@, fv, rv, o);
                            }
                            if fixed {
                                assert forall|o: Printed| #[trigger] run(cur@, rest@, o) == run(s0, r0, og) by {
                                    lemma_run_fork(data@, fv, rv, og);
                                    lemma_run_consume(cur@->Consume_data, rest@, o);
                                    lemma_run_consume(cur@->Consume_data, rest@, og);
                                }
                            }
                        }
                    },
                    Some(fs) => {
                        assert(sv == (StateV::Fork { data: data@, fork: Some(forks_v(fs@)) }));
                        let (res, Ghost(bs)) = run_branches(data, fs, rest);
                        let ghost o1 = Printed::Branches(bs);
                        proof {
                            lemma_run_fork(sv->Fork_data, fv, rv, o1);
                            assert(printed_branches(o1) == bs);
                        }
                        let t = match res {
                            Ok(t) => t,
                            Err(e) => {
                                proof {
                                    if fixed {
                                        assert(false);
                                    }
                                    assert(run(s0, r0, o1) == run(sv, rv, o1));
                                }
                                return (Err(e), Ghost(o1));
                            },
                        };
                        cur = TransformState::Consume(TransformConsume { data: t });
                        proof {
                            assert(fixed == false);
                            assert forall|o: Printed| #[trigger] run(cur@, rest@, o) == run(s0, r0, o1) by {
                                assert(run(s0, r0, o1) == run(sv, rv, o1));
                                lemma_run_consume(toks(t@), rv, o);
                                lemma_run_consume(toks(t@), rv, o1);
                            }
                            og = o1;
                            fixed = true;
                        }
                    },
                }
            },
            TransformState::Pipe(st) => {
                match step_pipe(st, rest) {
                    Ok(s) => {
                        cur = s;
                    },
                    Err(e) => {
                        return (Err(e), Ghost(og));
                    },
                }
            },
            TransformState::Resume(st) => {
                cur = step_resume(st, rest);
            },
            TransformState::Save(st) => {
                cur = step_save(st, rest);
            },
        }
    }
}

/// Runs `state` against `rest` until it emits its final tokens: the result is
/// that of the state machine, for what the printer gave.
pub fn transform_impl(state: TransformState, rest: &mut TransformRest) -> (r: Result<Vec<Token>, Error>)
    ensures
        exists|o: Printed| (result_v(r), final(rest)@) == #[trigger] run(state@, old(rest)@, o),
{
    let (r, Ghost(o)) = drive(state, rest);
    assert((result_v(r), rest@) == run(state@, old(rest)@, o));
    r
}

/// What a run emits: its tokens or its error, and the marker tokens, which
/// are emitted in either case.
#[derive(Debug)]
pub struct Expansion {
    pub result: Result<Vec<Token>, Error>,
    pub marker: Vec<Token>,
}

impl TransformState {
    /// Runs the state machine from this state with the continuation `rest`.
    /// The result and the marker are those of the state machine, for what the
    /// printer gave.
    pub fn transform(self, rest: TransformRest) -> (r: Expansion)
        ensures
            exists|o: Printed|
                result_v(r.result) == (#[trigger] run(self@, rest@, o)).0 && toks(r.marker@) == run(
                    self@,
                    rest@,
                    o,
                ).1.marker,
    {
        let ghost s = self@;
        let ghost r0 = rest@;
        let mut rest = rest;
        let (result, Ghost(o)) = drive(self, &mut rest);
        let marker = rest.take_marker();
        assert(result_v(result) == run(s, r0, o).0 && toks(marker@) == run(s, r0, o).1.marker);
        Expansion { result, marker }
    }
}

/// The path `extend`.
pub open spec fn extend_path() -> Seq<TokenV> {
    seq![TokenV::Ident("extend"@)]
}

/// `r` with the mark of `extend` added to its marker.
pub open spec fn marked(r: RestV) -> RestV {
    RestV { marker: r.marker + builtin_marker(extend_path()), ..r }
}

impl Extend {
    /// Runs `extend(as dest)` on `src` as the `extend` command's own macro,
    /// then the rest of the pipeline: on success the mark of `extend` is added
    /// to the marker and the state machine runs from the piping state; an
    /// error is blamed on `extend` and the marker is kept as it was.
    pub fn run_as(dest: Declaration, src: Declaration, rest: TransformRest) -> (r: Expansion)
        ensures
            match extend_as_spec(dest@, src@) {
                Ok(s) => exists|o: Printed|
                    result_v(r.result) == (#[trigger] run(s, marked(rest@), o)).0 && toks(r.marker@)
                        == run(s, marked(rest@), o).1.marker,
                Err(e) => result_v(r.result) == Err::<Seq<TokenV>, ErrorV>(
                    ErrorV { command: Some(extend_path()), ..e },
                ) && toks(r.marker@) == rest@.marker,
            },
    {
        let mut path: Vec<Token> = Vec::new();
        crate::commands::push_ident(&mut path, "extend");
        assert(toks(path@) =~= extend_path());
        let ghost r0 = rest@;
        let mut rest = rest;
        match Extend::extend_as(dest, src) {
            Ok(state) => {
                let m = builtin_marker_tokens(&path);
                rest.with_marker(&m);
                assert(rest@ == marked(r0));
                let ghost sv = state@;
                let x = state.transform(rest);
                proof {
                    let o = choose|o: Printed|
                        result_v(x.result) == (#[trigger] run(sv, marked(r0), o)).0 && toks(x.marker@)
                            == run(sv, marked(r0), o).1.marker;
                    assert(result_v(x.result) == run(sv, marked(r0), o).0);
                }
                x
            },
            Err(e) => {
                let marker = rest.take_marker();
                Expansion { result: Err(e.in_command(&path)), marker }
            },
        }
    }
}

/// A command that a user defines in a macro of their own: it reads its
/// arguments and turns the declaration into the next state, and may add to
/// the continuation.
pub trait Transformer {
    fn transform(data: Declaration, args: &Vec<Token>, rest: &mut TransformRest) -> Result<
        TransformState,
        Error,
    >;
}

/// The input of a command that runs as its own macro: the declaration, the
/// arguments and the continuation.
pub struct TransformInput {
    pub data: Declaration,
    pub args: Vec<Token>,
    pub rest: TransformRest,
}

impl TransformInput {
    /// Runs the command `T`, then the rest of the pipeline from the state it
    /// gives: the output is that of the state machine from there. An error of
    /// `T` is returned as it is.
    pub fn transform<T: Transformer>(self) -> (r: Result<Expansion, Error>)
        ensures
            r matches Ok(x) ==> exists|s: StateV, r1: RestV, o: Printed|
                result_v(x.result) == (#[trigger] run(s, r1, o)).0 && toks(x.marker@) == run(s, r1, o).1.marker,
    {
        let TransformInput { data, args, rest } = self;
        let mut rest = rest;
        let state = T::transform(data, &args, &mut rest)?;
        let ghost s = state@;
        let ghost r1 = rest@;
        let x = state.transform(rest);
        Ok(x)
    }
}

} // verus!
