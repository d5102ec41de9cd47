//! Properties of the state machine as a whole.
use vstd::prelude::*;
use crate::command::CommandV;
use crate::decl::DeclV;
use crate::error::{ErrorKind, ErrorV};
use crate::rest::{RestV, parse_rest, rest_tokens, rest_wf, lemma_rest_round_trip};
use crate::state::{ForkV, StateV, pipe_v};
use crate::tokens::TokenV;
use crate::transform::{
    Printed, printed_text, printed_branches,
    DispatchV, dispatch, hooked, lemma_dispatch_weight, lemma_run_fork, lemma_run_forks,
    lemma_weights_concat, measure, protocol_error, rank, run, run_forks, taken,
};
use crate::emit::builtin_marker;

verus! {

/// Reaching a consuming state while commands are pending is an error; with
/// no command pending, the output is the data followed by the extra tokens.
pub proof fn law_consume_needs_empty_queue(data: Seq<TokenV>, r: RestV, o: Printed)
    ensures
        r.pipe.len() > 0 ==> run(StateV::Consume { data }, r, o).0 == Err::<Seq<TokenV>, ErrorV>(
            protocol_error(
                ErrorKind::ConsumeNotLast,
                "a consume command should not be followed by other commands"@,
                r,
            ),
        ),
        r.pipe.len() == 0 ==> run(StateV::Consume { data }, r, o).0 == Ok::<Seq<TokenV>, ErrorV>(
            data + r.extra,
        ),
{
    reveal(run);
}

/// Every run that succeeds ends with no command pending.
pub proof fn law_success_empties_queue(s: StateV, r: RestV, o: Printed)
    ensures
        run(s, r, o).0 is Ok ==> run(s, r, o).1.pipe.len() == 0,
    decreases measure(s, r), rank(s),
{
    reveal(run);
    match s {
        StateV::Consume { .. } => {},
        StateV::Debug { data, args } => {
            let a = match args {
                Some(a) => a,
                None => Seq::empty(),
            };
            law_success_empties_queue(
                StateV::Consume {
                    data: crate::emit::debug_tokens(
                        data.name,
                        printed_text(o),
                        crate::transform::debug_body(data, args, r),
                    ),
                },
                taken(r),
                o,
            );
        },
        StateV::Fork { data, fork } => {
            match fork {
                None => {
                    law_success_empties_queue(StateV::Consume { data: crate::decl::decl_tokens(data) }, r, o);
                },
                Some(fs) => {
                    if let Ok(t) = run_forks(data, fs, r, printed_branches(o)) {
                        law_success_empties_queue(StateV::Consume { data: t }, r, o);
                    }
                },
            }
        },
        StateV::Pipe { data, pipe, extra, marker } => {
            let r1 = hooked(r, pipe, extra, marker);
            if let Some(p) = pipe {
                lemma_weights_concat(p, r.pipe);
            }
            if r1.pipe.len() > 0 {
                let c = r1.pipe[0];
                let r2 = RestV { this: c.path, pipe: r1.pipe.drop_first(), ..r1 };
                lemma_dispatch_weight(c, data);
                match dispatch(c, data) {
                    DispatchV::Executed(s2) => {
                        law_success_empties_queue(
                            s2,
                            RestV { marker: r2.marker + builtin_marker(c.path), ..r2 },
                            o,
                        );
                    },
                    DispatchV::Unsupported => {
                        law_success_empties_queue(
                            StateV::Consume {
                                data: crate::emit::macro_call(
                                    crate::transform::handoff_path(c),
                                    crate::emit::call_body(data, c.args, r2),
                                ),
                            },
                            taken(r2),
                            o,
                        );
                    },
                    DispatchV::Failed(_) => {},
                }
            }
        },
        StateV::Resume { path, pipe } => {
            let r1 = RestV {
                this: path,
                pipe: match pipe {
                    Some(p) => p + r.pipe,
                    None => r.pipe,
                },
                ..r
            };
            law_success_empties_queue(
                StateV::Consume { data: crate::emit::resume_tokens(path, r1) },
                taken(r1),
                o,
            );
        },
        StateV::Save { data, name } => {
            let n = match name {
                Some(n) => n,
                None => data.name,
            };
            law_success_empties_queue(
                StateV::Consume { data: crate::emit::save_tokens(data, n, r.extra) },
                RestV { extra: Seq::empty(), ..r },
                o,
            );
        },
    }
}

/// A declaration that is piped with no command left, and nothing to hand
/// it to, is an error.
pub proof fn law_pipe_needs_a_command(d: DeclV, r: RestV, o: Printed)
    requires
        r.pipe.len() == 0,
    ensures
        run(pipe_v(d), r, o).0 == Err::<Seq<TokenV>, ErrorV>(
            protocol_error(ErrorKind::PipeNotConsumed, "a pipe command should be consumed"@, r),
        ),
{
    reveal(run);
    assert(hooked(r, None, None, None) == r);
}

/// A piped declaration goes to the first pending command, with the other
/// commands left pending in their order: commands run in the order in which
/// they are written.
pub proof fn law_commands_run_in_order(d: DeclV, r: RestV, o: Printed)
    requires
        r.pipe.len() > 0,
    ensures
        ({
            let c = r.pipe[0];
            let r2 = RestV { this: c.path, pipe: r.pipe.drop_first(), ..r };
            run(pipe_v(d), r, o) == match dispatch(c, d) {
                DispatchV::Failed(e) => (Err(ErrorV { command: Some(c.path), ..e }), r2),
                DispatchV::Executed(s2) => run(
                    s2,
                    RestV { marker: r2.marker + builtin_marker(c.path), ..r2 },
                    o,
                ),
                DispatchV::Unsupported => run(
                    StateV::Consume {
                        data: crate::emit::macro_call(
                            crate::transform::handoff_path(c),
                            crate::emit::call_body(d, c.args, r2),
                        ),
                    },
                    taken(r2),
                    o,
                ),
            }
        }),
{
    reveal(run);
    assert(hooked(r, None, None, None) == r);
}

/// `a` is the beginning of `b`.
pub open spec fn is_prefix(a: Seq<TokenV>, b: Seq<TokenV>) -> bool {
    a.len() <= b.len() && b.take(a.len() as int) == a
}

proof fn lemma_prefix_trans(a: Seq<TokenV>, b: Seq<TokenV>, c: Seq<TokenV>)
    requires
        is_prefix(a, b),
        is_prefix(b, c),
    ensures
        is_prefix(a, c),
{
    assert(c.take(a.len() as int) =~= c.take(b.len() as int).take(a.len() as int));
}

proof fn lemma_prefix_append(a: Seq<TokenV>, b: Seq<TokenV>)
    ensures
        is_prefix(a, a + b),
{
    assert((a + b).take(a.len() as int) =~= a);
}

/// The marker tokens that a run starts with are kept, in front, whatever
/// happens: the run only appends to them.
pub proof fn law_marker_travels(s: StateV, r: RestV, o: Printed)
    ensures
        is_prefix(r.marker, run(s, r, o).1.marker),
    decreases measure(s, r), rank(s),
{
    reveal(run);
    lemma_prefix_append(r.marker, Seq::empty());
    assert(r.marker + Seq::<TokenV>::empty() =~= r.marker);
    match s {
        StateV::Consume { .. } => {},
        StateV::Debug { data, args } => {
            let a = match args {
                Some(a) => a,
                None => Seq::empty(),
            };
            law_marker_travels(
                StateV::Consume {
                    data: crate::emit::debug_tokens(
                        data.name,
                        printed_text(o),
                        crate::transform::debug_body(data, args, r),
                    ),
                },
                taken(r),
                o,
            );
        },
        StateV::Fork { data, fork } => {
            match fork {
                None => {
                    law_marker_travels(StateV::Consume { data: crate::decl::decl_tokens(data) }, r, o);
                },
                Some(fs) => {
                    if let Ok(t) = run_forks(data, fs, r, printed_branches(o)) {
                        law_marker_travels(StateV::Consume { data: t }, r, o);
                    }
                },
            }
        },
        StateV::Pipe { data, pipe, extra, marker } => {
            let r1 = hooked(r, pipe, extra, marker);
            if let Some(p) = pipe {
                lemma_weights_concat(p, r.pipe);
            }
            if let Some(m) = marker {
                lemma_prefix_append(r.marker, m);
            }
            if r1.pipe.len() > 0 {
                let c = r1.pipe[0];
                let r2 = RestV { this: c.path, pipe: r1.pipe.drop_first(), ..r1 };
                lemma_dispatch_weight(c, data);
                match dispatch(c, data) {
                    DispatchV::Executed(s2) => {
                        let r3 = RestV { marker: r2.marker + builtin_marker(c.path), ..r2 };
                        law_marker_travels(s2, r3, o);
                        lemma_prefix_append(r2.marker, builtin_marker(c.path));
                        lemma_prefix_trans(r.marker, r2.marker, r3.marker);
                        lemma_prefix_trans(r.marker, r3.marker, run(s2, r3, o).1.marker);
                    },
                    DispatchV::Unsupported => {
                        let s3 = StateV::Consume {
                            data: crate::emit::macro_call(
                                crate::transform::handoff_path(c),
                                crate::emit::call_body(data, c.args, r2),
                            ),
                        };
                        law_marker_travels(s3, taken(r2), o);
                        lemma_prefix_trans(r.marker, r2.marker, run(s3, taken(r2), o).1.marker);
                    },
                    DispatchV::Failed(_) => {},
                }
            }
        },
        StateV::Resume { path, pipe } => {
            let r1 = RestV {
                this: path,
                pipe: match pipe {
                    Some(p) => p + r.pipe,
                    None => r.pipe,
                },
                ..r
            };
            law_marker_travels(StateV::Consume { data: crate::emit::resume_tokens(path, r1) }, taken(r1), o);
        },
        StateV::Save { data, name } => {
            let n = match name {
                Some(n) => n,
                None => data.name,
            };
            law_marker_travels(
                StateV::Consume { data: crate::emit::save_tokens(data, n, r.extra) },
                RestV { extra: Seq::empty(), ..r },
                o,
            );
        },
    }
}

/// Resuming from the notation of a continuation runs exactly as from the
/// continuation itself: the same output, and the same marker tokens, which
/// keep the ones it carried.
pub proof fn law_resume_from_notation(s: StateV, r: RestV, o: Printed)
    requires
        rest_wf(r),
    ensures
        parse_rest(rest_tokens(r)) matches Ok(r2) && run(s, r2, o) == run(s, r, o),
        is_prefix(r.marker, run(s, r, o).1.marker),
{
    lemma_rest_round_trip(r);
    law_marker_travels(s, r, o);
}

/// A fork runs each branch on its own copy of the declaration, renamed, with
/// only its own commands (and what the printer gave in it), and joins the
/// outputs in the order of the branches.
pub proof fn law_fork_branches_are_independent(
    d: DeclV,
    f1: ForkV,
    f2: ForkV,
    r: RestV,
    p1: Printed,
    p2: Printed,
)
    ensures
        ({
            let o = Printed::Branches(seq![p1, p2]);
            let out1 = run(pipe_v(DeclV { name: f1.name, ..d }), RestV { pipe: f1.pipe, ..r }, p1).0;
            let out2 = run(pipe_v(DeclV { name: f2.name, ..d }), RestV { pipe: f2.pipe, ..r }, p2).0;
            match (out1, out2) {
                (Ok(t1), Ok(t2)) => run(StateV::Fork { data: d, fork: Some(seq![f1, f2]) }, r, o)
                    == run(StateV::Consume { data: t1 + t2 }, r, o),
                (Err(e), _) => run(StateV::Fork { data: d, fork: Some(seq![f1, f2]) }, r, o).0 == Err::<
                    Seq<TokenV>,
                    ErrorV,
                >(e),
                (Ok(_), Err(e)) => run(StateV::Fork { data: d, fork: Some(seq![f1, f2]) }, r, o).0
                    == Err::<Seq<TokenV>, ErrorV>(e),
            }
        }),
{
    let o = Printed::Branches(seq![p1, p2]);
    let fs = seq![f1, f2];
    let bs = seq![p1, p2];
    lemma_run_fork(d, Some(fs), r, o);
    assert(printed_branches(o) == bs);
    lemma_run_forks(d, fs, r, bs);
    assert(fs.drop_first() =~= seq![f2]);
    assert(crate::transform::rest_printed(bs) =~= seq![p2]);
    lemma_run_forks(d, seq![f2], r, seq![p2]);
    assert(seq![f2].drop_first() =~= Seq::<ForkV>::empty());
    assert(run_forks(d, Seq::<ForkV>::empty(), r, crate::transform::rest_printed(seq![p2]))
        == Ok::<Seq<TokenV>, ErrorV>(Seq::empty()));
    let out2 = run(pipe_v(DeclV { name: f2.name, ..d }), RestV { pipe: f2.pipe, ..r }, p2).0;
    if let Ok(t2) = out2 {
        assert(t2 + Seq::<TokenV>::empty() =~= t2);
    }
}

/// Where a run of piping built-ins leaves the pipeline.
pub struct PipedV {
    pub data: DeclV,
    pub this: Seq<TokenV>,
    pub extra: Seq<TokenV>,
    pub marks: Seq<TokenV>,
}

pub open spec fn or_empty(o: Option<Seq<TokenV>>) -> Seq<TokenV> {
    match o {
        Some(e) => e,
        None => Seq::empty(),
    }
}

/// The commands `cs` run in order on `d`, each a built-in that keeps piping
/// (adding, at most, extra tokens): the declaration they leave, the last
/// command, the extra tokens with each command's added in order, and the mark
/// of each command in order. `None` when one of them does something else.
pub open spec fn piped(d: DeclV, cs: Seq<CommandV>, this: Seq<TokenV>, extra: Seq<TokenV>) -> Option<PipedV>
    decreases cs.len(),
{
    if cs.len() == 0 {
        Some(PipedV { data: d, this, extra, marks: Seq::empty() })
    } else {
        match dispatch(cs[0], d) {
            DispatchV::Executed(StateV::Pipe { data: d2, pipe: None, extra: e, marker: None }) => match piped(
                d2,
                cs.drop_first(),
                cs[0].path,
                extra + or_empty(e),
            ) {
                Some(p) => Some(PipedV { marks: builtin_marker(cs[0].path) + p.marks, ..p }),
                None => None,
            },
            _ => None,
        }
    }
}

proof fn lemma_run_hooks(d: DeclV, e: Option<Seq<TokenV>>, r: RestV, o: Printed)
    ensures
        run(StateV::Pipe { data: d, pipe: None, extra: e, marker: None }, r, o) == run(
            pipe_v(d),
            RestV { extra: r.extra + or_empty(e), ..r },
            o,
        ),
{
    reveal(run);
    assert(r.extra + Seq::<TokenV>::empty() =~= r.extra);
    assert(hooked(RestV { extra: r.extra + or_empty(e), ..r }, None, None, None) == hooked(
        r,
        None,
        e,
        None,
    ));
}

/// Commands run in the order in which they are written: when the pending
/// commands begin with built-ins that keep piping, running them leaves the
/// declaration they make, their extra tokens appended in their order, and the
/// marker that the continuation carried followed by one mark per command, in
/// their order; the commands after them are still pending.
pub proof fn law_piping_commands_in_order(d: DeclV, cs: Seq<CommandV>, tail: Seq<CommandV>, r: RestV, o: Printed)
    requires
        piped(d, cs, r.this, r.extra) is Some,
    ensures
        ({
            let p = piped(d, cs, r.this, r.extra)->Some_0;
            run(pipe_v(d), RestV { pipe: cs + tail, ..r }, o) == run(
                pipe_v(p.data),
                RestV { this: p.this, pipe: tail, extra: p.extra, marker: r.marker + p.marks },
                o,
            )
        }),
    decreases cs.len(),
{
    if cs.len() == 0 {
        assert(cs + tail =~= tail);
        assert(r.marker + Seq::<TokenV>::empty() =~= r.marker);
    } else {
        let c = cs[0];
        let r0 = RestV { pipe: cs + tail, ..r };
        law_commands_run_in_order(d, r0, o);
        assert(r0.pipe[0] == c);
        assert(r0.pipe.drop_first() =~= cs.drop_first() + tail);
        if let DispatchV::Executed(StateV::Pipe { data: d2, pipe: None, extra: e, marker: None }) = dispatch(c, d) {
            let r2 = RestV { this: c.path, pipe: cs.drop_first() + tail, marker: r.marker + builtin_marker(c.path), ..r };
            lemma_run_hooks(d2, e, r2, o);
            let r3 = RestV { this: c.path, extra: r.extra + or_empty(e), ..r2 };
            assert(RestV { extra: r2.extra + or_empty(e), ..r2 } == RestV { pipe: cs.drop_first() + tail, ..r3 });
            law_piping_commands_in_order(d2, cs.drop_first(), tail, r3, o);
            let p = piped(d2, cs.drop_first(), c.path, r.extra + or_empty(e))->Some_0;
            assert(r3.marker + p.marks =~= r.marker + (builtin_marker(c.path) + p.marks));
        }
    }
}

} // verus!
