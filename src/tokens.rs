//! A flat model of a token stream.
//!
//! A token stream is a sequence of leaf tokens in which every delimited group
//! is written as an `Open` token, its contents and a `Close` token. A stream
//! is well formed when its groups nest: `balanced` below.
use vstd::prelude::*;

verus! {

/// The delimiter of a group.
#[derive(PartialEq, Eq, Structural, Clone, Copy, Debug)]
pub enum Delimiter {
    Paren,
    Brace,
    Bracket,
    Invisible,
}

/// Whether a punctuation character is joined to the one that follows it
/// (the `-` of `->`, the first `:` of `::`).
#[derive(PartialEq, Eq, Structural, Clone, Copy, Debug)]
pub enum Spacing {
    Alone,
    Joint,
}

/// One token of a stream.
#[derive(Clone, Debug, PartialEq, Eq)]
pub enum Token {
    Ident(String),
    Punct(char, Spacing),
    Literal(String),
    Open(Delimiter),
    Close(Delimiter),
}

/// What a token is, with its text as a sequence of characters.
pub enum TokenV {
    Ident(Seq<char>),
    Punct(char, Spacing),
    Literal(Seq<char>),
    Open(Delimiter),
    Close(Delimiter),
}

impl View for Token {
    type V = TokenV;

    open spec fn view(&self) -> TokenV {
        match self {
            Token::Ident(s) => TokenV::Ident(s@),
            Token::Punct(c, sp) => TokenV::Punct(*c, *sp),
            Token::Literal(s) => TokenV::Literal(s@),
            Token::Open(d) => TokenV::Open(*d),
            Token::Close(d) => TokenV::Close(*d),
        }
    }
}

/// The view of a token sequence.
pub open spec fn toks(v: Seq<Token>) -> Seq<TokenV> {
    v.map_values(|t: Token| t@)
}

/// How far a token moves the nesting depth.
pub open spec fn delta(t: TokenV) -> int {
    match t {
        TokenV::Open(_) => 1,
        TokenV::Close(_) => -1,
        _ => 0,
    }
}

/// Number of groups opened and not yet closed after `s`.
pub open spec fn depth(s: Seq<TokenV>) -> int
    decreases s.len(),
{
    if s.len() == 0 {
        0
    } else {
        depth(s.drop_last()) + delta(s.last())
    }
}

/// Every group of `s` that opens also closes inside `s`, after it opened.
pub open spec fn balanced(s: Seq<TokenV>) -> bool {
    &&& depth(s) == 0
    &&& forall|i: int| 0 <= i <= s.len() ==> depth(#[trigger] s.take(i)) >= 0
}

/// `c` enclosed in a group with delimiter `d`.
pub open spec fn grouped(d: Delimiter, c: Seq<TokenV>) -> Seq<TokenV> {
    seq![TokenV::Open(d)] + c + seq![TokenV::Close(d)]
}

pub proof fn lemma_depth_one(t: TokenV)
    ensures
        depth(seq![t]) == delta(t),
        depth(Seq::<TokenV>::empty()) == 0,
{
    assert(seq![t].drop_last() =~= Seq::<TokenV>::empty());
    assert(seq![t].last() == t);
    assert(depth(Seq::<TokenV>::empty()) == 0);
}

pub proof fn lemma_depth_concat(a: Seq<TokenV>, b: Seq<TokenV>)
    ensures
        depth(a + b) == depth(a) + depth(b),
    decreases b.len(),
{
    if b.len() == 0 {
        assert(a + b =~= a);
    } else {
        lemma_depth_concat(a, b.drop_last());
        assert((a + b).drop_last() =~= a + b.drop_last());
        assert((a + b).last() == b.last());
    }
}

pub proof fn lemma_balanced_concat(a: Seq<TokenV>, b: Seq<TokenV>)
    requires
        balanced(a),
        balanced(b),
    ensures
        balanced(a + b),
{
    lemma_depth_concat(a, b);
    assert forall|i: int| 0 <= i <= (a + b).len() implies depth(#[trigger] (a + b).take(i)) >= 0 by {
        if i <= a.len() {
            assert((a + b).take(i) =~= a.take(i));
        } else {
            assert((a + b).take(i) =~= a + b.take(i - a.len()));
            lemma_depth_concat(a, b.take(i - a.len()));
        }
    }
}

pub proof fn lemma_balanced_empty()
    ensures
        balanced(Seq::<TokenV>::empty()),
{
    assert forall|i: int| 0 <= i <= 0 implies depth(#[trigger] Seq::<TokenV>::empty().take(i)) >= 0 by {
        assert(Seq::<TokenV>::empty().take(i) =~= Seq::<TokenV>::empty());
    }
}

/// Depth inside a group: one more than inside its contents.
pub proof fn lemma_depth_inside_group(d: Delimiter, c: Seq<TokenV>, k: int)
    requires
        0 <= k <= c.len(),
    ensures
        depth(grouped(d, c).take(k + 1)) == 1 + depth(c.take(k)),
{
    let o = seq![TokenV::Open(d)];
    assert(grouped(d, c).take(k + 1) =~= o + c.take(k));
    lemma_depth_concat(o, c.take(k));
    lemma_depth_one(TokenV::Open(d));
}

pub proof fn lemma_balanced_group(d: Delimiter, c: Seq<TokenV>)
    requires
        balanced(c),
    ensures
        balanced(grouped(d, c)),
{
    let o = seq![TokenV::Open(d)];
    let g = grouped(d, c);
    assert(g.drop_last() =~= o + c);
    lemma_depth_concat(o, c);
    lemma_depth_one(TokenV::Open(d));
    assert(g.last() == TokenV::Close(d));
    assert forall|i: int| 0 <= i <= g.len() implies depth(#[trigger] g.take(i)) >= 0 by {
        if i == 0 {
            assert(g.take(i) =~= Seq::<TokenV>::empty());
        } else if i == g.len() {
            assert(g.take(i) =~= g);
        } else {
            lemma_depth_inside_group(d, c, i - 1);
        }
    }
}

impl Token {
    /// A copy of this token.
    pub fn duplicate(&self) -> (r: Token)
        ensures
            r == *self,
    {
        match self {
            Token::Ident(s) => Token::Ident(s.clone()),
            Token::Punct(c, sp) => Token::Punct(*c, *sp),
            Token::Literal(s) => Token::Literal(s.clone()),
            Token::Open(d) => Token::Open(*d),
            Token::Close(d) => Token::Close(*d),
        }
    }

    /// An identifier token.
    pub fn ident(s: &str) -> (r: Token)
        ensures
            r matches Token::Ident(n) && n@ == s@,
    {
        Token::Ident(s.to_owned())
    }

    /// Whether this token is the identifier `s`.
    pub fn is_ident(&self, s: &str) -> (r: bool)
        ensures
            r == (self matches Token::Ident(n) && n@ == s@),
    {
        match self {
            Token::Ident(n) => *n == s.to_owned(),
            _ => false,
        }
    }

    /// Whether this token is the punctuation character `c` joined to the next one.
    pub fn is_joint_punct(&self, c: char) -> (r: bool)
        ensures
            r == (self@ == TokenV::Punct(c, Spacing::Joint)),
    {
        match self {
            Token::Punct(p, sp) => *p == c && *sp == Spacing::Joint,
            _ => false,
        }
    }

    /// Whether this token opens a group delimited by `d`.
    pub fn is_open(&self, d: Delimiter) -> (r: bool)
        ensures
            r == (self@ == TokenV::Open(d)),
    {
        match self {
            Token::Open(e) => *e == d,
            _ => false,
        }
    }

    /// Whether this token closes a group delimited by `d`.
    pub fn is_close(&self, d: Delimiter) -> (r: bool)
        ensures
            r == (self@ == TokenV::Close(d)),
    {
        match self {
            Token::Close(e) => *e == d,
            _ => false,
        }
    }

    /// Whether this token is the punctuation character `c`, whatever its spacing.
    pub fn is_punct(&self, c: char) -> (r: bool)
        ensures
            r == (self@ matches TokenV::Punct(p, _) && p == c),
    {
        match self {
            Token::Punct(p, _) => *p == c,
            _ => false,
        }
    }
}

/// A copy of a token sequence.
pub fn copy_tokens(v: &Vec<Token>) -> (r: Vec<Token>)
    ensures
        r@ == v@,
{
    let mut r: Vec<Token> = Vec::new();
    let mut i: usize = 0;
    while i < v.len()
        invariant
            i <= v.len(),
            r@ == v@.take(i as int),
        decreases v.len() - i,
    {
        r.push(v[i].duplicate());
        i = i + 1;
    }
    assert(v@.take(v.len() as int) =~= v@);
    r
}

/// A copy of the tokens of `v` from `a` up to `b`.
pub fn copy_range(v: &Vec<Token>, a: usize, b: usize) -> (r: Vec<Token>)
    requires
        a <= b <= v.len(),
    ensures
        r@ == v@.subrange(a as int, b as int),
{
    let mut r: Vec<Token> = Vec::new();
    let mut i: usize = a;
    while i < b
        invariant
            a <= i <= b <= v.len(),
            r@ == v@.subrange(a as int, i as int),
        decreases b - i,
    {
        r.push(v[i].duplicate());
        i = i + 1;
        assert(r@ =~= v@.subrange(a as int, i as int));
    }
    assert(toks(r@) =~= toks(v@).subrange(a as int, b as int));
    r
}

/// Appends `t` to `dst`.
pub fn push_token(dst: &mut Vec<Token>, t: Token)
    ensures
        final(dst)@ == old(dst)@.push(t),
        toks(final(dst)@) == toks(old(dst)@).push(t@),
{
    dst.push(t);
    assert(toks(final(dst)@) =~= toks(old(dst)@).push(t@));
}

/// Appends a copy of `src` to `dst`.
pub fn extend_tokens(dst: &mut Vec<Token>, src: &Vec<Token>)
    ensures
        final(dst)@ == old(dst)@ + src@,
{
    let mut i: usize = 0;
    while i < src.len()
        invariant
            i <= src.len(),
            dst@ == old(dst)@ + src@.take(i as int),
        decreases src.len() - i,
    {
        dst.push(src[i].duplicate());
        i = i + 1;
        assert(src@.take(i as int) =~= src@.take(i - 1) + seq![src@[i - 1]]);
    }
    assert(src@.take(src.len() as int) =~= src@);
}

/// Appends `c`, enclosed in a group with delimiter `d`, to `dst`.
pub fn push_group(dst: &mut Vec<Token>, d: Delimiter, c: &Vec<Token>)
    ensures
        toks(final(dst)@) == toks(old(dst)@) + grouped(d, toks(c@)),
{
    dst.push(Token::Open(d));
    extend_tokens(dst, c);
    dst.push(Token::Close(d));
    assert(toks(final(dst)@) =~= toks(old(dst)@) + grouped(d, toks(c@)));
}

/// The token at `e` closes the group that opens at `start`: it is the first
/// position after which nothing opened at or after `start` is left open.
pub open spec fn closes_at(s: Seq<TokenV>, start: int, e: int) -> bool {
    &&& 0 <= start < e < s.len()
    &&& depth(s.subrange(start, e + 1)) == 0
    &&& forall|k: int| start <= k < e ==> depth(#[trigger] s.subrange(start, k + 1)) > 0
}

/// Where the group that opens at `start` closes, if it does.
pub open spec fn group_close(s: Seq<TokenV>, start: int) -> Option<int> {
    if exists|e: int| closes_at(s, start, e) {
        Some(choose|e: int| closes_at(s, start, e))
    } else {
        None
    }
}

pub proof fn lemma_closes_at_unique(s: Seq<TokenV>, start: int, e: int)
    requires
        closes_at(s, start, e),
    ensures
        group_close(s, start) == Some(e),
{
    let f = choose|f: int| closes_at(s, start, f);
    assert(closes_at(s, start, f));
    if f < e {
        assert(depth(s.subrange(start, f + 1)) > 0);
    } else if e < f {
        assert(depth(s.subrange(start, e + 1)) > 0);
    }
}

/// Index of the token that closes the group opened at `start`.
pub fn group_end(v: &Vec<Token>, start: usize) -> (r: Option<usize>)
    requires
        start < v.len(),
        v@[start as int] matches Token::Open(_),
    ensures
        match r {
            Some(e) => group_close(toks(v@), start as int) == Some(e as int) && start < e < v.len(),
            None => group_close(toks(v@), start as int) is None,
        },
{
    let ghost s = start as int;
    let mut d: usize = 1;
    let mut i: usize = start + 1;
    proof {
        assert(toks(v@).subrange(s, s + 1) =~= seq![v@[s]@]);
        lemma_depth_one(v@[s]@);
    }
    while i < v.len()
        invariant
            s == start as int,
            start < i <= v.len(),
            d as int == depth(toks(v@).subrange(s, i as int)),
            d > 0,
            d <= i - start,
            forall|k: int| start <= k < i ==> depth(#[trigger] toks(v@).subrange(s, k + 1)) > 0,
        decreases v.len() - i,
    {
        proof {
            assert(toks(v@).subrange(s, i + 1).drop_last() =~= toks(v@).subrange(s, i as int));
        }
        match &v[i] {
            Token::Open(_) => {
                d = d + 1;
            },
            Token::Close(_) => {
                d = d - 1;
                if d == 0 {
                    proof {
                        assert(closes_at(toks(v@), s, i as int));
                        lemma_closes_at_unique(toks(v@), s, i as int);
                    }
                    return Some(i);
                }
            },
            _ => {},
        }
        i = i + 1;
    }
    proof {
        if exists|e: int| closes_at(toks(v@), s, e) {
            let e = choose|e: int| closes_at(toks(v@), s, e);
            assert(depth(toks(v@).subrange(s, e + 1)) > 0);
        }
    }
    None
}

/// Where the group opened at `start` ends, when its contents are `c`.
pub proof fn lemma_group_end(s: Seq<TokenV>, start: int, d: Delimiter, c: Seq<TokenV>, e: int)
    requires
        0 <= start,
        e == start + c.len() + 1,
        e < s.len(),
        s.subrange(start, e + 1) =~= grouped(d, c),
        balanced(c),
    ensures
        group_close(s, start) == Some(e),
{
    lemma_balanced_group(d, c);
    assert forall|k: int| start <= k < e implies depth(#[trigger] s.subrange(start, k + 1)) > 0 by {
        assert(s.subrange(start, k + 1) =~= grouped(d, c).take(k - start + 1));
        lemma_depth_inside_group(d, c, k - start);
    }
    assert(s.subrange(start, e + 1) =~= grouped(d, c));
    lemma_closes_at_unique(s, start, e);
}

/// A sequence with no delimiter in it is balanced.
pub proof fn lemma_balanced_flat(s: Seq<TokenV>)
    requires
        forall|i: int| 0 <= i < s.len() ==> delta(#[trigger] s[i]) == 0,
    ensures
        balanced(s),
{
    assert forall|i: int| 0 <= i <= s.len() implies depth(#[trigger] s.take(i)) == 0 by {
        lemma_flat_depth(s, i);
    }
    assert(s.take(s.len() as int) =~= s);
}

proof fn lemma_flat_depth(s: Seq<TokenV>, i: int)
    requires
        0 <= i <= s.len(),
        forall|j: int| 0 <= j < s.len() ==> delta(#[trigger] s[j]) == 0,
    ensures
        depth(s.take(i)) == 0,
    decreases i,
{
    if i > 0 {
        lemma_flat_depth(s, i - 1);
        assert(s.take(i).drop_last() =~= s.take(i - 1));
    } else {
        assert(s.take(i) =~= Seq::<TokenV>::empty());
    }
}

} // verus!
