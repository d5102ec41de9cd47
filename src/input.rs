//! The inputs of the entry points: `start -> command(args) ...`, and the
//! named fields that a resumed pipeline receives.
use vstd::prelude::*;
use crate::command::{CommandV, Path, PipeCommand, cmds_v, is_punct_char, parse_commands, parse_commands_exec, path_shaped};
use crate::error::{Error, ErrorKind, ErrorV, notation_v};
use crate::rest::{RestV, TransformRest, parse_named, parse_named_exec, parse_rest};
use crate::state::{StateV, TransformState};
use crate::tokens::{Spacing, Token, TokenV, copy_range, toks};
use crate::transform::{Expansion, Printed, result_v, run};

verus! {

/// The first position at or after `from` where `->` starts, or the length.
pub open spec fn first_arrow(s: Seq<TokenV>, from: int) -> int
    decreases s.len() - from,
{
    if from < 0 || from >= s.len() {
        s.len() as int
    } else if s[from] == TokenV::Punct('-', Spacing::Joint) && from + 1 < s.len() && is_punct_char(
        s[from + 1],
        '>',
    ) {
        from
    } else {
        first_arrow(s, from + 1)
    }
}

/// Reads `start -> command(args) ...`: the path that starts the pipeline and
/// its commands.
pub open spec fn parse_pipe_input(s: Seq<TokenV>) -> Result<(Seq<TokenV>, Seq<CommandV>), ErrorV> {
    let a = first_arrow(s, 0);
    if !path_shaped(s.take(a)) {
        Err(notation_v("expected a command path"@))
    } else {
        match parse_commands(s.subrange(a, s.len() as int), 0) {
            Err(e) => Err(e),
            Ok(cs) => Ok((s.take(a), cs)),
        }
    }
}

/// The state and the continuation that a pipeline starts from: the macro at
/// `start` is resumed with the commands, and runs them on its declaration.
pub open spec fn pipe_start(start: Seq<TokenV>, cs: Seq<CommandV>) -> (StateV, RestV) {
    (
        StateV::Resume { path: start, pipe: Some(cs) },
        RestV { this: start, pipe: Seq::empty(), extra: Seq::empty(), marker: Seq::empty() },
    )
}

fn find_arrow(v: &Vec<Token>) -> (r: usize)
    ensures
        r as int == first_arrow(toks(v@), 0),
        r <= v.len(),
{
    let ghost s = toks(v@);
    let mut i: usize = 0;
    while i < v.len()
        invariant
            i <= v.len(),
            s == toks(v@),
            first_arrow(s, i as int) == first_arrow(s, 0),
        decreases v.len() - i,
    {
        assert(s[i as int] == v@[i as int]@);
        if v[i].is_joint_punct('-') && v.len() - i > 1 && v[i + 1].is_punct('>') {
            assert(s[i + 1] == v@[i + 1]@);
            return i;
        }
        proof {
            if v.len() - i > 1 {
                assert(s[i + 1] == v@[i + 1]@);
            }
        }
        i = i + 1;
    }
    i
}

/// Reads the input of a pipeline: its start and its commands.
pub fn parse_pipe(v: &Vec<Token>) -> (r: Result<(Path, Vec<PipeCommand>), Error>)
    ensures
        match (r, parse_pipe_input(toks(v@))) {
            (Ok((p, cs)), Ok((pv, csv))) => p@ == pv && cmds_v(cs@) == csv,
            (Err(e), Err(f)) => e@ == f,
            _ => false,
        },
{
    let a = find_arrow(v);
    let start = copy_range(v, 0, a);
    assert(toks(v@).take(a as int) =~= toks(v@).subrange(0, a as int));
    assert(toks(start@) == toks(v@).take(a as int));
    if !Path::is_path(&start) {
        return Err(Error::new(ErrorKind::Notation, "expected a command path"));
    }
    let rest = copy_range(v, a, v.len());
    assert(toks(rest@) == toks(v@).subrange(a as int, v.len() as int));
    let cmds = parse_commands_exec(&rest)?;
    Ok((Path { tokens: start }, cmds))
}

/// Starts the pipeline written in `v`: `start -> command(args) ...`.
pub fn expand_pipe(v: &Vec<Token>) -> (r: Result<Expansion, Error>)
    ensures
        match (r, parse_pipe_input(toks(v@))) {
            (Ok(x), Ok((pv, csv))) => exists|o: Printed|
                result_v(x.result) == (#[trigger] run(pipe_start(pv, csv).0, pipe_start(pv, csv).1, o)).0
                    && toks(x.marker@) == run(pipe_start(pv, csv).0, pipe_start(pv, csv).1, o).1.marker,
            (Err(e), Err(f)) => e@ == f,
            _ => false,
        },
{
    let (start, cmds) = parse_pipe(v)?;
    let rest = TransformRest::empty(start.duplicate());
    let state = TransformState::resume(start).pipe(cmds).build();
    let ghost sv = state@;
    let ghost rv = rest@;
    let x = state.transform(rest);
    proof {
        let pv = parse_pipe_input(toks(v@))->Ok_0;
        assert(sv == pipe_start(pv.0, pv.1).0);
        assert(rv =~= pipe_start(pv.0, pv.1).1);
        let o = choose|o: Printed|
            result_v(x.result) == (#[trigger] run(sv, rv, o)).0 && toks(x.marker@) == run(sv, rv, o).1.marker;
        assert(result_v(x.result) == run(pipe_start(pv.0, pv.1).0, pipe_start(pv.0, pv.1).1, o).0);
    }
    Ok(x)
}

/// Reads `args={rest={r}} data={d} extra={e}`, the input of a pipeline that
/// starts from a saved declaration.
pub open spec fn parse_predefined(s: Seq<TokenV>) -> Result<(Seq<TokenV>, Seq<TokenV>, RestV), ErrorV> {
    match parse_named(s, 0, "args"@) {
        Err(e) => Err(e),
        Ok((a, k1)) => match parse_named(a, 0, "rest"@) {
            Err(e) => Err(e),
            Ok((rc, q)) => if q != a.len() {
                Err(notation_v("unexpected token"@))
            } else {
                match parse_rest(rc) {
                    Err(e) => Err(e),
                    Ok(r) => match parse_named(s, k1, "data"@) {
                        Err(e) => Err(e),
                        Ok((d, k2)) => match parse_named(s, k2, "extra"@) {
                            Err(e) => Err(e),
                            Ok((x, k3)) => if k3 != s.len() {
                                Err(notation_v("unexpected token"@))
                            } else {
                                Ok((d, x, r))
                            },
                        },
                    },
                }
            },
        },
    }
}

/// Reads `data={d} args={a} rest={r}`, the input of a command that runs as
/// its own macro.
pub open spec fn parse_command_input(s: Seq<TokenV>) -> Result<(Seq<TokenV>, Seq<TokenV>, RestV), ErrorV> {
    match parse_named(s, 0, "data"@) {
        Err(e) => Err(e),
        Ok((d, k1)) => match parse_named(s, k1, "args"@) {
            Err(e) => Err(e),
            Ok((a, k2)) => match parse_named(s, k2, "rest"@) {
                Err(e) => Err(e),
                Ok((rc, k3)) => if k3 != s.len() {
                    Err(notation_v("unexpected token"@))
                } else {
                    match parse_rest(rc) {
                        Err(e) => Err(e),
                        Ok(r) => Ok((d, a, r)),
                    }
                },
            },
        },
    }
}

/// The fields of an input, with the declaration still as tokens.
#[derive(Debug)]
pub struct RawInput {
    pub data: Vec<Token>,
    pub other: Vec<Token>,
    pub rest: TransformRest,
}

pub open spec fn raw_agrees(r: Result<RawInput, Error>, s: Result<(Seq<TokenV>, Seq<TokenV>, RestV), ErrorV>) -> bool {
    match (r, s) {
        (Ok(x), Ok((d, o, rv))) => toks(x.data@) == d && toks(x.other@) == o && x.rest@ == rv,
        (Err(e), Err(f)) => e@ == f,
        _ => false,
    }
}

/// Reads `args={rest={r}} data={d} extra={e}`; `other` holds `e`.
pub fn parse_predefined_input(v: &Vec<Token>) -> (r: Result<RawInput, Error>)
    ensures
        raw_agrees(r, parse_predefined(toks(v@))),
{
    let (a, k1) = parse_named_exec(v, 0, "args")?;
    let (rc, q) = parse_named_exec(&a, 0, "rest")?;
    if q != a.len() {
        return Err(Error::new(ErrorKind::Notation, "unexpected token"));
    }
    let rest = TransformRest::parse(&rc)?;
    let (data, k2) = parse_named_exec(v, k1, "data")?;
    let (extra, k3) = parse_named_exec(v, k2, "extra")?;
    if k3 != v.len() {
        return Err(Error::new(ErrorKind::Notation, "unexpected token"));
    }
    Ok(RawInput { data, other: extra, rest })
}

/// Reads `data={d} args={a} rest={r}`; `other` holds `a`.
pub fn parse_command_input_exec(v: &Vec<Token>) -> (r: Result<RawInput, Error>)
    ensures
        raw_agrees(r, parse_command_input(toks(v@))),
{
    let (data, k1) = parse_named_exec(v, 0, "data")?;
    let (args, k2) = parse_named_exec(v, k1, "args")?;
    let (rc, k3) = parse_named_exec(v, k2, "rest")?;
    if k3 != v.len() {
        return Err(Error::new(ErrorKind::Notation, "unexpected token"));
    }
    let rest = TransformRest::parse(&rc)?;
    Ok(RawInput { data, other: args, rest })
}

} // verus!
