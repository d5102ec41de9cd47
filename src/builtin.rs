//! The built-in commands and their lookup by name.
use vstd::prelude::*;
use vstd::string::StrSliceExecFns;
use crate::command::{CommandV, PipeCommand};

verus! {

/// The built-in commands.
#[derive(PartialEq, Eq, Structural, Clone, Copy, Debug)]
pub enum Builtin {
    Debug,
    Extend,
    Finish,
    Rename,
    Save,
    Select,
    SelectAttr,
    Wrap,
    Wrapped,
}

/// The name under which a built-in is called.
pub open spec fn builtin_name(b: Builtin) -> Seq<char> {
    match b {
        Builtin::Debug => "debug"@,
        Builtin::Extend => "extend"@,
        Builtin::Finish => "finish"@,
        Builtin::Rename => "rename"@,
        Builtin::Save => "save"@,
        Builtin::Select => "select"@,
        Builtin::SelectAttr => "select_attr"@,
        Builtin::Wrap => "wrap"@,
        Builtin::Wrapped => "wrapped"@,
    }
}

/// The built-in called `name`, if any: names match exactly.
pub open spec fn lookup(name: Seq<char>) -> Option<Builtin> {
    if name == "debug"@ {
        Some(Builtin::Debug)
    } else if name == "extend"@ {
        Some(Builtin::Extend)
    } else if name == "finish"@ {
        Some(Builtin::Finish)
    } else if name == "rename"@ {
        Some(Builtin::Rename)
    } else if name == "save"@ {
        Some(Builtin::Save)
    } else if name == "select"@ {
        Some(Builtin::Select)
    } else if name == "select_attr"@ {
        Some(Builtin::SelectAttr)
    } else if name == "wrap"@ {
        Some(Builtin::Wrap)
    } else if name == "wrapped"@ {
        Some(Builtin::Wrapped)
    } else {
        None
    }
}

/// The built-in that a command calls: its path must be a single identifier.
pub open spec fn command_builtin(c: CommandV) -> Option<Builtin> {
    if c.path.len() == 1 && c.path[0] is Ident {
        lookup(c.path[0]->Ident_0)
    } else {
        None
    }
}

/// The built-in at position `i` of the table, which is sorted by name.
pub open spec fn builtin_at(i: int) -> Builtin {
    if i <= 0 {
        Builtin::Debug
    } else if i == 1 {
        Builtin::Extend
    } else if i == 2 {
        Builtin::Finish
    } else if i == 3 {
        Builtin::Rename
    } else if i == 4 {
        Builtin::Save
    } else if i == 5 {
        Builtin::Select
    } else if i == 6 {
        Builtin::SelectAttr
    } else if i == 7 {
        Builtin::Wrap
    } else {
        Builtin::Wrapped
    }
}

/// Lexicographic order of character sequences, by code point.
pub open spec fn lex_lt(a: Seq<char>, b: Seq<char>) -> bool
    decreases a.len(),
{
    if a.len() == 0 {
        b.len() > 0
    } else if b.len() == 0 {
        false
    } else if a[0] != b[0] {
        (a[0] as u32) < (b[0] as u32)
    } else {
        lex_lt(a.drop_first(), b.drop_first())
    }
}

pub proof fn lemma_lex_irreflexive(a: Seq<char>)
    ensures
        !lex_lt(a, a),
    decreases a.len(),
{
    if a.len() > 0 {
        lemma_lex_irreflexive(a.drop_first());
    }
}

pub proof fn lemma_lex_transitive(a: Seq<char>, b: Seq<char>, c: Seq<char>)
    requires
        lex_lt(a, b),
        lex_lt(b, c),
    ensures
        lex_lt(a, c),
    decreases a.len(),
{
    if a.len() > 0 && b.len() > 0 && c.len() > 0 && a[0] == b[0] && b[0] == c[0] {
        lemma_lex_transitive(a.drop_first(), b.drop_first(), c.drop_first());
    }
}

/// Where a built-in stands in the table.
pub open spec fn index_of(b: Builtin) -> int {
    match b {
        Builtin::Debug => 0,
        Builtin::Extend => 1,
        Builtin::Finish => 2,
        Builtin::Rename => 3,
        Builtin::Save => 4,
        Builtin::Select => 5,
        Builtin::SelectAttr => 6,
        Builtin::Wrap => 7,
        Builtin::Wrapped => 8,
    }
}

proof fn lemma_lookup_name(b: Builtin)
    ensures
        lookup(builtin_name(b)) == Some(b),
        builtin_at(index_of(b)) == b,
        0 <= index_of(b) < 9,
{
    reveal_strlit("debug");
    reveal_strlit("extend");
    reveal_strlit("finish");
    reveal_strlit("rename");
    reveal_strlit("save");
    reveal_strlit("select");
    reveal_strlit("select_attr");
    reveal_strlit("wrap");
    reveal_strlit("wrapped");
    let n = builtin_name(b);
    if b != Builtin::Debug {
        assert(n.len() != 5 || n[0] != 'd');
    }
    if b != Builtin::Extend {
        assert(n.len() != 6 || n[0] != 'e');
    }
    if b != Builtin::Finish {
        assert(n.len() != 6 || n[0] != 'f');
    }
    if b != Builtin::Rename {
        assert(n.len() != 6 || n[0] != 'r');
    }
    if b != Builtin::Save {
        assert(n.len() != 4 || n[0] != 's');
    }
    if b != Builtin::Select {
        assert(n.len() != 6 || n[0] != 's');
    }
    if b != Builtin::SelectAttr {
        assert(n.len() != 11);
    }
    if b != Builtin::Wrap {
        assert(n.len() != 4 || n[0] != 'w');
    }
    if b != Builtin::Wrapped {
        assert(n.len() != 7);
    }
}

proof fn lemma_lookup_some(n: Seq<char>)
    ensures
        lookup(n) matches Some(b) ==> n == builtin_name(b),
{
}

proof fn lemma_adjacent(k: int)
    requires
        0 <= k < 8,
    ensures
        lex_lt(builtin_name(builtin_at(k)), builtin_name(builtin_at(k + 1))),
{
    reveal_strlit("debug");
    reveal_strlit("extend");
    reveal_strlit("finish");
    reveal_strlit("rename");
    reveal_strlit("save");
    reveal_strlit("select");
    reveal_strlit("select_attr");
    reveal_strlit("wrap");
    reveal_strlit("wrapped");
    if k == 4 {
        assert(lex_lt("save"@, "select"@)) by {
            reveal_with_fuel(lex_lt, 3);
        }
    } else if k == 5 {
        assert(lex_lt("select"@, "select_attr"@)) by {
            reveal_with_fuel(lex_lt, 8);
        }
    } else if k == 7 {
        assert(lex_lt("wrap"@, "wrapped"@)) by {
            reveal_with_fuel(lex_lt, 6);
        }
    }
}

/// The table is sorted by name.
proof fn lemma_sorted(i: int, j: int)
    requires
        0 <= i < j < 9,
    ensures
        lex_lt(builtin_name(builtin_at(i)), builtin_name(builtin_at(j))),
    decreases j - i,
{
    lemma_adjacent(j - 1);
    if j > i + 1 {
        lemma_sorted(i, j - 1);
        lemma_lex_transitive(
            builtin_name(builtin_at(i)),
            builtin_name(builtin_at(j - 1)),
            builtin_name(builtin_at(j)),
        );
    }
}

/// The built-ins with their names, sorted by name.
fn table() -> (r: Vec<(&'static str, Builtin)>)
    ensures
        r.len() == 9,
        forall|i: int| 0 <= i < 9 ==> (#[trigger] r@[i]).1 == builtin_at(i) && r@[i].0@ == builtin_name(
            builtin_at(i),
        ),
{
    let r = vec![
        ("debug", Builtin::Debug),
        ("extend", Builtin::Extend),
        ("finish", Builtin::Finish),
        ("rename", Builtin::Rename),
        ("save", Builtin::Save),
        ("select", Builtin::Select),
        ("select_attr", Builtin::SelectAttr),
        ("wrap", Builtin::Wrap),
        ("wrapped", Builtin::Wrapped),
    ];
    assert forall|i: int| 0 <= i < 9 implies (#[trigger] r@[i]).1 == builtin_at(i) && r@[i].0@
        == builtin_name(builtin_at(i)) by {
        if i == 0 {
        } else if i == 1 {
        } else if i == 2 {
        } else if i == 3 {
        } else if i == 4 {
        } else if i == 5 {
        } else if i == 6 {
        } else if i == 7 {
        } else {
        }
    }
    r
}

/// Compares two names: negative, zero or positive as `a` comes before, is,
/// or comes after `b`.
fn compare(a: &str, b: &str) -> (r: i8)
    ensures
        r < 0 ==> lex_lt(a@, b@),
        r == 0 ==> a@ == b@,
        r > 0 ==> lex_lt(b@, a@),
{
    let n = a.unicode_len();
    let m = b.unicode_len();
    let mut i: usize = 0;
    assert(a@.skip(0) =~= a@);
    assert(b@.skip(0) =~= b@);
    assert(a@.take(0) =~= b@.take(0));
    while i < n && i < m
        invariant
            n == a@.len(),
            m == b@.len(),
            i <= n,
            i <= m,
            a@.take(i as int) == b@.take(i as int),
            lex_lt(a@, b@) == lex_lt(a@.skip(i as int), b@.skip(i as int)),
            lex_lt(b@, a@) == lex_lt(b@.skip(i as int), a@.skip(i as int)),
        decreases n - i,
    {
        let ca = a.get_char(i);
        let cb = b.get_char(i);
        if ca != cb {
            proof {
                assert(a@.skip(i as int)[0] == ca);
                assert(b@.skip(i as int)[0] == cb);
            }
            if (ca as u32) < (cb as u32) {
                return -1;
            } else {
                return 1;
            }
        }
        proof {
            assert(a@.skip(i as int).drop_first() =~= a@.skip(i + 1));
            assert(b@.skip(i as int).drop_first() =~= b@.skip(i + 1));
            assert(a@.take(i + 1) =~= a@.take(i as int).push(ca));
            assert(b@.take(i + 1) =~= b@.take(i as int).push(cb));
        }
        i = i + 1;
    }
    if n == m {
        assert(a@ =~= a@.take(i as int));
        assert(b@ =~= b@.take(i as int));
        0
    } else if n < m {
        -1
    } else {
        1
    }
}

/// The built-in called `name`, found by binary search in the sorted table.
pub fn lookup_builtin(name: &str) -> (r: Option<Builtin>)
    ensures
        r == lookup(name@),
{
    let t = table();
    let mut lo: usize = 0;
    let mut hi: usize = 9;
    while lo < hi
        invariant
            lo <= hi <= 9,
            t.len() == 9,
            forall|i: int| 0 <= i < 9 ==> (#[trigger] t@[i]).1 == builtin_at(i) && t@[i].0@ == builtin_name(
                builtin_at(i),
            ),
            forall|j: int| 0 <= j < lo ==> lex_lt(builtin_name(#[trigger] builtin_at(j)), name@),
            forall|j: int| hi <= j < 9 ==> lex_lt(name@, builtin_name(#[trigger] builtin_at(j))),
        decreases hi - lo,
    {
        let mid = lo + (hi - lo) / 2;
        let entry = t[mid];
        assert(entry.0@ == builtin_name(builtin_at(mid as int)));
        let c = compare(name, entry.0);
        if c == 0 {
            proof {
                lemma_lookup_name(builtin_at(mid as int));
            }
            return Some(entry.1);
        } else if c < 0 {
            proof {
                assert forall|j: int| mid <= j < 9 implies lex_lt(
                    name@,
                    builtin_name(#[trigger] builtin_at(j)),
                ) by {
                    if j > mid {
                        lemma_sorted(mid as int, j);
                        lemma_lex_transitive(
                            name@,
                            builtin_name(builtin_at(mid as int)),
                            builtin_name(builtin_at(j)),
                        );
                    }
                }
            }
            hi = mid;
        } else {
            proof {
                assert forall|j: int| 0 <= j <= mid implies lex_lt(
                    builtin_name(#[trigger] builtin_at(j)),
                    name@,
                ) by {
                    if j < mid {
                        lemma_sorted(j, mid as int);
                        lemma_lex_transitive(
                            builtin_name(builtin_at(j)),
                            builtin_name(builtin_at(mid as int)),
                            name@,
                        );
                    }
                }
            }
            lo = mid + 1;
        }
    }
    proof {
        lemma_lex_irreflexive(name@);
        lemma_lookup_some(name@);
        if lookup(name@) is Some {
            let b = lookup(name@)->Some_0;
            lemma_lookup_name(b);
            let k = index_of(b);
            assert(builtin_at(k) == b);
        }
    }
    None
}

/// The built-in that `cmd` calls, if any.
pub fn maybe_builtin(cmd: &PipeCommand) -> (r: Option<Builtin>)
    ensures
        r == command_builtin(cmd@),
{
    match cmd.path().get_ident() {
        Some(n) => lookup_builtin(n.as_str()),
        None => None,
    }
}

} // verus!
