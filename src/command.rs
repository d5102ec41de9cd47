//! Pipeline commands and their notation: `-> path(args)`.
use vstd::prelude::*;
use crate::error::{Error, ErrorKind, ErrorV, notation_v};
use crate::tokens::{Token, TokenV, Spacing, Delimiter, toks, delta, balanced, grouped, group_close, copy_tokens, copy_range, lemma_balanced_flat};

verus! {

/// A path such as `rename` or `::my_crate::command`, held as its tokens.
#[derive(Debug, PartialEq, Eq)]
pub struct Path {
    pub tokens: Vec<Token>,
}

impl View for Path {
    type V = Seq<TokenV>;

    open spec fn view(&self) -> Seq<TokenV> {
        toks(self.tokens@)
    }
}

/// `t` is the punctuation character `c`, whatever its spacing.
pub open spec fn is_punct_char(t: TokenV, c: char) -> bool {
    t matches TokenV::Punct(p, _) && p == c
}

pub open spec fn is_colon(t: TokenV) -> bool {
    t matches TokenV::Punct(c, _) && c == ':'
}

pub open spec fn is_joint_colon(t: TokenV) -> bool {
    t == TokenV::Punct(':', Spacing::Joint)
}

/// `b` is `ident (:: ident)*`.
pub open spec fn segments_shaped(b: Seq<TokenV>) -> bool {
    &&& b.len() % 3 == 1
    &&& forall|i: int|
        0 <= i < b.len() ==> {
            let t = #[trigger] b[i];
            if i % 3 == 0 {
                t is Ident
            } else if i % 3 == 1 {
                is_joint_colon(t)
            } else {
                is_colon(t)
            }
        }
}

/// `s` is a path: `(::)? ident (:: ident)*`.
pub open spec fn path_shaped(s: Seq<TokenV>) -> bool {
    ||| segments_shaped(s)
    ||| (s.len() >= 2 && is_joint_colon(s[0]) && is_colon(s[1]) && segments_shaped(
        s.subrange(2, s.len() as int),
    ))
}

pub proof fn lemma_path_flat(s: Seq<TokenV>)
    requires
        path_shaped(s),
    ensures
        forall|i: int| 0 <= i < s.len() ==> delta(#[trigger] s[i]) == 0,
        balanced(s),
{
    if !segments_shaped(s) {
        let b = s.subrange(2, s.len() as int);
        assert forall|i: int| 0 <= i < s.len() implies delta(#[trigger] s[i]) == 0 by {
            if i >= 2 {
                assert(s[i] == b[i - 2]);
            }
        }
    }
    lemma_balanced_flat(s);
}

impl Path {
    /// Whether `v` holds a path.
    pub fn is_path(v: &Vec<Token>) -> (r: bool)
        ensures
            r == path_shaped(toks(v@)),
    {
        let ghost s = toks(v@);
        let n = v.len();
        let lead = n >= 2 && v[0].is_joint_colon() && v[1].is_colon();
        let start: usize = if lead { 2 } else { 0 };
        if (n - start) % 3 != 1 {
            proof {
                if lead && segments_shaped(s) {
                    let t = s[0];
                    assert(t is Ident);
                }
            }
            return false;
        }
        let mut i: usize = start;
        while i < n
            invariant
                start <= i <= n,
                n == v.len(),
                s == toks(v@),
                start == 0 || start == 2,
                lead == (start == 2),
                lead == (n >= 2 && is_joint_colon(s[0]) && is_colon(s[1])),
                (n - start) % 3 == 1,
                forall|j: int|
                    start <= j < i ==> {
                        let t = #[trigger] s[j];
                        if (j - start) % 3 == 0 {
                            t is Ident
                        } else if (j - start) % 3 == 1 {
                            is_joint_colon(t)
                        } else {
                            is_colon(t)
                        }
                    },
            decreases n - i,
        {
            let k = (i - start) % 3;
            let ok = if k == 0 {
                v[i].is_ident_token()
            } else if k == 1 {
                v[i].is_joint_colon()
            } else {
                v[i].is_colon()
            };
            if !ok {
                proof {
                    if lead {
                        let b = s.subrange(2, n as int);
                        assert(b[i - 2] == s[i as int]);
                        if segments_shaped(s) {
                            assert(s[0] is Ident);
                        }
                    } else {
                        let t = s[i as int];
                        assert(segments_shaped(s) ==> t == s[i as int]);
                    }
                }
                return false;
            }
            i = i + 1;
        }
        proof {
            if lead {
                let b = s.subrange(2, n as int);
                assert forall|j: int| 0 <= j < b.len() implies {
                    let t = #[trigger] b[j];
                    if j % 3 == 0 {
                        t is Ident
                    } else if j % 3 == 1 {
                        is_joint_colon(t)
                    } else {
                        is_colon(t)
                    }
                } by {
                    assert(b[j] == s[j + 2]);
                }
            }
        }
        true
    }

    /// The identifier that the path consists of, when it is one identifier.
    pub fn get_ident(&self) -> (r: Option<&String>)
        ensures
            match r {
                Some(n) => self@.len() == 1 && self@[0] == TokenV::Ident(n@),
                None => !(self@.len() == 1 && self@[0] is Ident),
            },
    {
        if self.tokens.len() == 1 {
            match &self.tokens[0] {
                Token::Ident(n) => Some(n),
                _ => None,
            }
        } else {
            None
        }
    }

    /// A copy of the path.
    pub fn duplicate(&self) -> (r: Path)
        ensures
            r@ == self@,
    {
        Path { tokens: copy_tokens(&self.tokens) }
    }
}

impl Token {
    pub fn is_ident_token(&self) -> (r: bool)
        ensures
            r == (self@ is Ident),
    {
        match self {
            Token::Ident(_) => true,
            _ => false,
        }
    }

    pub fn is_colon(&self) -> (r: bool)
        ensures
            r == is_colon(self@),
    {
        self.is_punct(':')
    }

    pub fn is_joint_colon(&self) -> (r: bool)
        ensures
            r == is_joint_colon(self@),
    {
        match self {
            Token::Punct(c, sp) => *c == ':' && *sp == Spacing::Joint,
            _ => false,
        }
    }
}

/// One step of a pipeline: a command path and its argument tokens.
#[derive(Debug, PartialEq, Eq)]
pub struct PipeCommand {
    pub path: Path,
    pub args: Vec<Token>,
}

/// What a command is: its path and its arguments.
pub struct CommandV {
    pub path: Seq<TokenV>,
    pub args: Seq<TokenV>,
}

impl View for PipeCommand {
    type V = CommandV;

    open spec fn view(&self) -> CommandV {
        CommandV { path: self.path@, args: toks(self.args@) }
    }
}

/// The views of a sequence of commands.
pub open spec fn cmds_v(v: Seq<PipeCommand>) -> Seq<CommandV> {
    v.map_values(|c: PipeCommand| c@)
}

/// A command that its notation can carry: a path, and arguments whose groups nest.
pub open spec fn command_wf(c: CommandV) -> bool {
    path_shaped(c.path) && balanced(c.args)
}

pub open spec fn commands_wf(cs: Seq<CommandV>) -> bool {
    forall|i: int| 0 <= i < cs.len() ==> command_wf(#[trigger] cs[i])
}

/// The tokens of `->`.
pub open spec fn arrow() -> Seq<TokenV> {
    seq![TokenV::Punct('-', Spacing::Joint), TokenV::Punct('>', Spacing::Alone)]
}

/// The notation of a command: `-> path(args)`.
pub open spec fn command_tokens(c: CommandV) -> Seq<TokenV> {
    arrow() + c.path + grouped(Delimiter::Paren, c.args)
}

/// The notation of commands, one after the other.
pub open spec fn commands_tokens(cs: Seq<CommandV>) -> Seq<TokenV>
    decreases cs.len(),
{
    if cs.len() == 0 {
        Seq::empty()
    } else {
        command_tokens(cs[0]) + commands_tokens(cs.drop_first())
    }
}

/// The first position at or after `from` where a group opens, or the length.
pub open spec fn first_open(s: Seq<TokenV>, from: int) -> int
    decreases s.len() - from,
{
    if from >= s.len() {
        s.len() as int
    } else if s[from] is Open {
        from
    } else {
        first_open(s, from + 1)
    }
}

/// Reads the command that starts at `pos`, and where it ends.
pub open spec fn parse_command(s: Seq<TokenV>, pos: int) -> Result<(CommandV, int), ErrorV> {
    if !(0 <= pos && pos + 1 < s.len() && s[pos] == TokenV::Punct('-', Spacing::Joint)
        && is_punct_char(s[pos + 1], '>')) {
        Err(notation_v("expected `->`"@))
    } else {
        let o = first_open(s, pos + 2);
        let path = s.subrange(pos + 2, o);
        if !path_shaped(path) {
            Err(notation_v("expected a command path"@))
        } else if o >= s.len() || s[o] != TokenV::Open(Delimiter::Paren) {
            Err(notation_v("expected `(`"@))
        } else {
            match group_close(s, o) {
                None => Err(notation_v("unclosed group"@)),
                Some(e) => if s[e] != TokenV::Close(Delimiter::Paren) {
                    Err(notation_v("mismatched delimiter"@))
                } else {
                    Ok((CommandV { path, args: s.subrange(o + 1, e) }, e + 1))
                },
            }
        }
    }
}

/// Reads the commands from `pos` to the end of `s`.
pub open spec fn parse_commands(s: Seq<TokenV>, pos: int) -> Result<Seq<CommandV>, ErrorV>
    decreases s.len() - pos,
{
    if pos < 0 || pos >= s.len() {
        Ok(Seq::empty())
    } else {
        match parse_command(s, pos) {
            Err(e) => Err(e),
            Ok((c, n)) => if n <= pos {
                Err(notation_v("expected `->`"@))
            } else {
                match parse_commands(s, n) {
                    Err(e) => Err(e),
                    Ok(cs) => Ok(seq![c] + cs),
                }
            },
        }
    }
}

pub proof fn lemma_commands_tokens_push(cs: Seq<CommandV>, c: CommandV)
    ensures
        commands_tokens(cs.push(c)) == commands_tokens(cs) + command_tokens(c),
    decreases cs.len(),
{
    if cs.len() == 0 {
        assert(cs.push(c).drop_first() =~= Seq::<CommandV>::empty());
        assert(commands_tokens(cs.push(c).drop_first()) == Seq::<TokenV>::empty());
        assert(commands_tokens(cs.push(c)) =~= commands_tokens(cs) + command_tokens(c));
    } else {
        lemma_commands_tokens_push(cs.drop_first(), c);
        assert(cs.push(c).drop_first() =~= cs.drop_first().push(c));
        assert(commands_tokens(cs.push(c)) =~= commands_tokens(cs) + command_tokens(c));
    }
}

proof fn lemma_first_open(s: Seq<TokenV>, from: int, to: int)
    requires
        0 <= from <= to < s.len(),
        s[to] is Open,
        forall|j: int| from <= j < to ==> delta(#[trigger] s[j]) == 0,
    ensures
        first_open(s, from) == to,
    decreases to - from,
{
    if from < to {
        lemma_first_open(s, from + 1, to);
    }
}

/// A command's notation reads back as that command.
pub proof fn lemma_parse_command(s: Seq<TokenV>, pos: int, c: CommandV)
    requires
        command_wf(c),
        0 <= pos,
        pos + command_tokens(c).len() <= s.len(),
        s.subrange(pos, pos + command_tokens(c).len()) == command_tokens(c),
    ensures
        parse_command(s, pos) == Ok::<(CommandV, int), ErrorV>((c, pos + command_tokens(c).len())),
{
    let ct = command_tokens(c);
    let o = pos + 2 + c.path.len();
    let e = o + c.args.len() + 1;
    assert(s[pos] == ct[0]);
    assert(s[pos + 1] == ct[1]);
    lemma_path_flat(c.path);
    assert forall|j: int| pos + 2 <= j < o implies delta(#[trigger] s[j]) == 0 by {
        assert(s[j] == ct[j - pos]);
        assert(ct[j - pos] == c.path[j - pos - 2]);
    }
    assert(s[o] == ct[o - pos]);
    lemma_first_open(s, pos + 2, o);
    assert(s.subrange(pos + 2, o) =~= c.path) by {
        assert forall|j: int| 0 <= j < c.path.len() implies s.subrange(pos + 2, o)[j] == c.path[j] by {
            assert(s[pos + 2 + j] == ct[2 + j]);
        }
    }
    assert(s.subrange(o, e + 1) =~= grouped(Delimiter::Paren, c.args)) by {
        assert forall|j: int| 0 <= j < e + 1 - o implies s.subrange(o, e + 1)[j] == grouped(
            Delimiter::Paren,
            c.args,
        )[j] by {
            assert(s[o + j] == ct[o + j - pos]);
        }
    }
    crate::tokens::lemma_group_end(s, o, Delimiter::Paren, c.args, e);
    assert(s[e] == s.subrange(o, e + 1)[e - o]);
    assert(s.subrange(o + 1, e) =~= c.args) by {
        assert forall|j: int| 0 <= j < c.args.len() implies s.subrange(o + 1, e)[j] == c.args[j] by {
            assert(s[o + 1 + j] == s.subrange(o, e + 1)[1 + j]);
        }
    }
}

/// The notation of well-formed commands reads back as those commands.
pub proof fn lemma_parse_commands(s: Seq<TokenV>, pos: int, cs: Seq<CommandV>)
    requires
        commands_wf(cs),
        0 <= pos <= s.len(),
        s.subrange(pos, s.len() as int) == commands_tokens(cs),
    ensures
        parse_commands(s, pos) == Ok::<Seq<CommandV>, ErrorV>(cs),
    decreases cs.len(),
{
    if cs.len() == 0 {
        assert(s.subrange(pos, s.len() as int).len() == 0);
        assert(cs =~= Seq::<CommandV>::empty());
    } else {
        let c = cs[0];
        let ct = command_tokens(c);
        let rest = commands_tokens(cs.drop_first());
        assert(command_wf(c));
        assert(commands_tokens(cs) == ct + rest);
        assert(s.subrange(pos, pos + ct.len()) =~= ct) by {
            assert forall|j: int| 0 <= j < ct.len() implies s.subrange(pos, pos + ct.len())[j] == ct[j] by {
                assert(s[pos + j] == s.subrange(pos, s.len() as int)[j]);
            }
        }
        lemma_parse_command(s, pos, c);
        assert(s.subrange(pos + ct.len(), s.len() as int) =~= rest) by {
            assert forall|j: int| 0 <= j < rest.len() implies s.subrange(pos + ct.len(), s.len() as int)[j] == rest[j] by {
                assert(s[pos + ct.len() + j] == s.subrange(pos, s.len() as int)[ct.len() + j]);
            }
        }
        assert(commands_wf(cs.drop_first())) by {
            assert forall|i: int| 0 <= i < cs.drop_first().len() implies command_wf(#[trigger] cs.drop_first()[i]) by {
                assert(cs.drop_first()[i] == cs[i + 1]);
            }
        }
        lemma_parse_commands(s, pos + ct.len(), cs.drop_first());
        assert(ct.len() >= 3);
        assert(pos < s.len());
        assert(seq![c] + cs.drop_first() =~= cs);
    }
}

/// The notation of well-formed commands is balanced.
pub proof fn lemma_commands_balanced(cs: Seq<CommandV>)
    requires
        commands_wf(cs),
    ensures
        balanced(commands_tokens(cs)),
    decreases cs.len(),
{
    if cs.len() == 0 {
        crate::tokens::lemma_balanced_empty();
    } else {
        let c = cs[0];
        assert(command_wf(c));
        assert(commands_wf(cs.drop_first())) by {
            assert forall|i: int| 0 <= i < cs.drop_first().len() implies command_wf(#[trigger] cs.drop_first()[i]) by {
                assert(cs.drop_first()[i] == cs[i + 1]);
            }
        }
        lemma_commands_balanced(cs.drop_first());
        lemma_balanced_flat(arrow());
        lemma_path_flat(c.path);
        crate::tokens::lemma_balanced_concat(arrow(), c.path);
        crate::tokens::lemma_balanced_group(Delimiter::Paren, c.args);
        crate::tokens::lemma_balanced_concat(arrow() + c.path, grouped(Delimiter::Paren, c.args));
        crate::tokens::lemma_balanced_concat(command_tokens(c), commands_tokens(cs.drop_first()));
    }
}

/// Index of the first token at or after `from` that opens a group, or the length.
fn find_open(v: &Vec<Token>, from: usize) -> (r: usize)
    requires
        from <= v.len(),
    ensures
        r as int == first_open(toks(v@), from as int),
        from <= r <= v.len(),
{
    let mut i = from;
    while i < v.len()
        invariant
            from <= i <= v.len(),
            first_open(toks(v@), i as int) == first_open(toks(v@), from as int),
        decreases v.len() - i,
    {
        match &v[i] {
            Token::Open(_) => {
                return i;
            },
            _ => {},
        }
        i = i + 1;
    }
    i
}

impl PipeCommand {
    /// A command with the given path and arguments.
    pub fn new(path: Path, args: Vec<Token>) -> (r: PipeCommand)
        ensures
            r@ == (CommandV { path: path@, args: toks(args@) }),
    {
        PipeCommand { path, args }
    }

    /// The path of the command.
    pub fn path(&self) -> (r: &Path)
        ensures
            r@ == self@.path,
    {
        &self.path
    }

    /// A copy of the command.
    pub fn duplicate(&self) -> (r: PipeCommand)
        ensures
            r@ == self@,
    {
        PipeCommand { path: self.path.duplicate(), args: copy_tokens(&self.args) }
    }

    /// Appends the notation of the command to `out`.
    pub fn to_tokens(&self, out: &mut Vec<Token>)
        ensures
            toks(final(out)@) == toks(old(out)@) + command_tokens(self@),
    {
        out.push(Token::Punct('-', Spacing::Joint));
        out.push(Token::Punct('>', Spacing::Alone));
        crate::tokens::extend_tokens(out, &self.path.tokens);
        crate::tokens::push_group(out, Delimiter::Paren, &self.args);
        assert(toks(final(out)@) =~= toks(old(out)@) + command_tokens(self@));
    }

    /// Reads the command that starts at `pos` in `v`, and where it ends.
    pub fn parse(v: &Vec<Token>, pos: usize) -> (r: Result<(PipeCommand, usize), Error>)
        requires
            pos <= v.len(),
        ensures
            match (r, parse_command(toks(v@), pos as int)) {
                (Ok((c, n)), Ok((cv, m))) => c@ == cv && n == m,
                (Err(e), Err(f)) => e@ == f,
                _ => false,
            },
    {
        let ghost s = toks(v@);
        let n = v.len();
        if !(n - pos >= 2 && v[pos].is_joint_punct('-') && v[pos + 1].is_punct('>')) {
            proof {
                if n - pos >= 2 {
                    assert(s[pos as int] == v@[pos as int]@);
                    assert(s[pos + 1] == v@[pos + 1]@);
                }
            }
            return Err(Error::new(ErrorKind::Notation, "expected `->`"));
        }
        proof {
            assert(s[pos as int] == v@[pos as int]@);
            assert(s[pos + 1] == v@[pos + 1]@);
        }
        let o = find_open(v, pos + 2);
        let path = copy_range(v, pos + 2, o);
        assert(toks(path@) == s.subrange(pos + 2, o as int));
        if !Path::is_path(&path) {
            return Err(Error::new(ErrorKind::Notation, "expected a command path"));
        }
        proof {
            if o < n {
                assert(s[o as int] == v@[o as int]@);
            }
        }
        if o >= n || !v[o].is_open(Delimiter::Paren) {
            return Err(Error::new(ErrorKind::Notation, "expected `(`"));
        }
        match crate::tokens::group_end(v, o) {
            None => Err(Error::new(ErrorKind::Notation, "unclosed group")),
            Some(e) => {
                proof {
                    assert(s[e as int] == v@[e as int]@);
                }
                if !v[e].is_close(Delimiter::Paren) {
                    Err(Error::new(ErrorKind::Notation, "mismatched delimiter"))
                } else {
                    let args = copy_range(v, o + 1, e);
                    assert(toks(args@) == s.subrange(o + 1, e as int));
                    Ok((PipeCommand { path: Path { tokens: path }, args }, e + 1))
                }
            },
        }
    }
}

/// Appends the notation of each command of `cs`, in order, to `out`.
pub fn commands_to_tokens(cs: &Vec<PipeCommand>, out: &mut Vec<Token>)
    ensures
        toks(final(out)@) == toks(old(out)@) + commands_tokens(cmds_v(cs@)),
{
    let mut i: usize = 0;
    while i < cs.len()
        invariant
            i <= cs.len(),
            toks(out@) == toks(old(out)@) + commands_tokens(cmds_v(cs@).take(i as int)),
        decreases cs.len() - i,
    {
        cs[i].to_tokens(out);
        proof {
            assert(cmds_v(cs@).take(i + 1) =~= cmds_v(cs@).take(i as int).push(cs@[i as int]@));
            lemma_commands_tokens_push(cmds_v(cs@).take(i as int), cs@[i as int]@);
        }
        i = i + 1;
    }
    assert(cmds_v(cs@).take(cs.len() as int) =~= cmds_v(cs@));
}

/// Reads the commands that fill `v`.
pub fn parse_commands_exec(v: &Vec<Token>) -> (r: Result<Vec<PipeCommand>, Error>)
    ensures
        match (r, parse_commands(toks(v@), 0)) {
            (Ok(cs), Ok(w)) => cmds_v(cs@) == w,
            (Err(e), Err(f)) => e@ == f,
            _ => false,
        },
{
    let ghost s = toks(v@);
    let mut out: Vec<PipeCommand> = Vec::new();
    let mut pos: usize = 0;
    while pos < v.len()
        invariant
            pos <= v.len(),
            s == toks(v@),
            parse_commands(s, 0) == match parse_commands(s, pos as int) {
                Ok(cs) => Ok(cmds_v(out@) + cs),
                Err(e) => Err::<Seq<CommandV>, ErrorV>(e),
            },
        decreases v.len() - pos,
    {
        match PipeCommand::parse(v, pos) {
            Err(e) => {
                return Err(e);
            },
            Ok((c, n)) => {
                if n <= pos {
                    return Err(Error::new(ErrorKind::Notation, "expected `->`"));
                }
                proof {
                    match parse_commands(s, n as int) {
                        Ok(cs) => {
                            assert(cmds_v(out@.push(c)) =~= cmds_v(out@).push(c@));
                            assert(cmds_v(out@) + (seq![c@] + cs) =~= cmds_v(out@).push(c@) + cs);
                        },
                        Err(_) => {},
                    }
                }
                out.push(c);
                pos = n;
            },
        }
    }
    proof {
        assert(cmds_v(out@) + Seq::<CommandV>::empty() =~= cmds_v(out@));
    }
    Ok(out)
}

} // verus!
