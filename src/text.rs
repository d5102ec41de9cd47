//! Tokens as source text, and their printed form.
use vstd::prelude::*;
use vstd::string::StringExecFns;
use crate::tokens::{Delimiter, Spacing, Token, TokenV, toks};

verus! {

/// The characters that a punctuation token can hold.
pub open spec fn punct_char_ok(c: char) -> bool {
    c == '=' || c == '<' || c == '>' || c == '!' || c == '~' || c == '+' || c == '-' || c == '*' || c
        == '/' || c == '%' || c == '^' || c == '&' || c == '|' || c == '@' || c == '.' || c == ','
        || c == ';' || c == ':' || c == '#' || c == '$' || c == '?' || c == '\''
}

/// Every punctuation token of `s` holds a punctuation character.
pub open spec fn printable(s: Seq<TokenV>) -> bool {
    forall|i: int| 0 <= i < s.len() ==> (#[trigger] s[i] matches TokenV::Punct(c, _) ==> punct_char_ok(c))
}

pub open spec fn open_text(d: Delimiter) -> Seq<char> {
    match d {
        Delimiter::Paren => "("@,
        Delimiter::Brace => "{"@,
        Delimiter::Bracket => "["@,
        Delimiter::Invisible => Seq::empty(),
    }
}

pub open spec fn close_text(d: Delimiter) -> Seq<char> {
    match d {
        Delimiter::Paren => ")"@,
        Delimiter::Brace => "}"@,
        Delimiter::Bracket => "]"@,
        Delimiter::Invisible => Seq::empty(),
    }
}

/// The text of one token.
pub open spec fn piece(t: TokenV) -> Seq<char> {
    match t {
        TokenV::Ident(s) => s,
        TokenV::Literal(s) => s,
        TokenV::Punct(c, _) => seq![c],
        TokenV::Open(d) => open_text(d),
        TokenV::Close(d) => close_text(d),
    }
}

/// What follows a token: nothing after a joined punctuation character, a space otherwise.
pub open spec fn gap(t: TokenV) -> Seq<char> {
    if t matches TokenV::Punct(_, Spacing::Joint) {
        Seq::empty()
    } else {
        " "@
    }
}

/// The tokens written as source text.
pub open spec fn source_text(s: Seq<TokenV>) -> Seq<char>
    decreases s.len(),
{
    if s.len() == 0 {
        Seq::empty()
    } else {
        source_text(s.drop_last()) + piece(s.last()) + gap(s.last())
    }
}

/// Relies on proc_macro2: `TokenStream::from_str` reads `source` as tokens,
/// and the stream's `Display` prints them; `None` when it does not read. The
/// printed text depends on more than `source`: inside a procedural macro the
/// compiler prints it.
#[verifier::external_body]
fn print_tokens(source: &str) -> (r: Option<String>) {
    match source.parse::<proc_macro2::TokenStream>() {
        Ok(ts) => Some(ts.to_string()),
        Err(_) => None,
    }
}

/// Relies on proc_macro2::Literal::string: the string literal of `s`, as
/// text. How it escapes depends on whether the compiler makes it.
#[verifier::external_body]
fn string_literal(s: &str) -> (r: String) {
    proc_macro2::Literal::string(s).to_string()
}

/// Whether `source` reads as a Rust type.
pub uninterp spec fn type_text(source: Seq<char>) -> bool;

/// Relies on syn::parse_str::<syn::Type>: whether `source` reads as a type.
#[verifier::external_body]
fn parses_as_type(source: &str) -> (r: bool)
    ensures
        r == type_text(source@),
{
    syn::parse_str::<syn::Type>(source).is_ok()
}

/// The tokens form a type.
pub open spec fn is_type(s: Seq<TokenV>) -> bool {
    printable(s) && type_text(source_text(s))
}

/// Whether the tokens of `v` form a type.
pub fn is_type_exec(v: &Vec<Token>) -> (r: bool)
    ensures
        r == is_type(toks(v@)),
{
    match source_text_exec(v) {
        Some(s) => parses_as_type(s.as_str()),
        None => false,
    }
}

fn punct_str(c: char) -> (r: Option<&'static str>)
    ensures
        match r {
            Some(s) => punct_char_ok(c) && s@ == seq![c],
            None => !punct_char_ok(c),
        },
{
    let s = if c == '=' { "=" } else if c == '<' { "<" } else if c == '>' { ">" } else if c == '!' { "!" }
        else if c == '~' { "~" } else if c == '+' { "+" } else if c == '-' { "-" } else if c == '*' { "*" }
        else if c == '/' { "/" } else if c == '%' { "%" } else if c == '^' { "^" } else if c == '&' { "&" }
        else if c == '|' { "|" } else if c == '@' { "@" } else if c == '.' { "." } else if c == ',' { "," }
        else if c == ';' { ";" } else if c == ':' { ":" } else if c == '#' { "#" } else if c == '$' { "$" }
        else if c == '?' { "?" } else if c == '\'' { "'" } else { return None; };
    proof {
        reveal_strlit("=");
        reveal_strlit("<");
        reveal_strlit(">");
        reveal_strlit("!");
        reveal_strlit("~");
        reveal_strlit("+");
        reveal_strlit("-");
        reveal_strlit("*");
        reveal_strlit("/");
        reveal_strlit("%");
        reveal_strlit("^");
        reveal_strlit("&");
        reveal_strlit("|");
        reveal_strlit("@");
        reveal_strlit(".");
        reveal_strlit(",");
        reveal_strlit(";");
        reveal_strlit(":");
        reveal_strlit("#");
        reveal_strlit("$");
        reveal_strlit("?");
        reveal_strlit("'");
    }
    Some(s)
}

fn delimiter_str(d: Delimiter, open: bool) -> (r: &'static str)
    ensures
        r@ == if open { open_text(d) } else { close_text(d) },
{
    proof {
        reveal_strlit("(");
        reveal_strlit(")");
        reveal_strlit("{");
        reveal_strlit("}");
        reveal_strlit("[");
        reveal_strlit("]");
        reveal_strlit("");
    }
    match d {
        Delimiter::Paren => if open { "(" } else { ")" },
        Delimiter::Brace => if open { "{" } else { "}" },
        Delimiter::Bracket => if open { "[" } else { "]" },
        Delimiter::Invisible => "",
    }
}

/// The tokens written as source text, when they are printable.
pub fn source_text_exec(v: &Vec<Token>) -> (r: Option<String>)
    ensures
        match r {
            Some(t) => printable(toks(v@)) && t@ == source_text(toks(v@)),
            None => !printable(toks(v@)),
        },
{
    let ghost s = toks(v@);
    let mut out = "".to_owned();
    proof {
        reveal_strlit("");
        reveal_strlit(" ");
        assert(s.take(0) =~= Seq::<TokenV>::empty());
    }
    let mut i: usize = 0;
    while i < v.len()
        invariant
            i <= v.len(),
            s == toks(v@),
            out@ == source_text(s.take(i as int)),
            printable(s.take(i as int)),
        decreases v.len() - i,
    {
        assert(s[i as int] == v@[i as int]@);
        let (p, joint): (&str, bool) = match &v[i] {
            Token::Ident(n) => (n.as_str(), false),
            Token::Literal(n) => (n.as_str(), false),
            Token::Punct(c, sp) => match punct_str(*c) {
                Some(p) => (p, *sp == Spacing::Joint),
                None => {
                    assert(!printable(s)) by {
                        assert(s[i as int] matches TokenV::Punct(c2, _) && !punct_char_ok(c2));
                    }
                    return None;
                },
            },
            Token::Open(d) => (delimiter_str(*d, true), false),
            Token::Close(d) => (delimiter_str(*d, false), false),
        };
        assert(p@ == piece(s[i as int]));
        let g = if joint { "" } else { " " };
        proof {
            reveal_strlit("");
            reveal_strlit(" ");
        }
        assert(g@ == gap(s[i as int]));
        out = out.concat(p).concat(g);
        proof {
            let t = s.take(i + 1);
            assert(t.drop_last() =~= s.take(i as int));
            assert(t.last() == s[i as int]);
            assert forall|k: int| 0 <= k < t.len() implies (#[trigger] t[k] matches TokenV::Punct(c, _)
                ==> punct_char_ok(c)) by {
                if k < i {
                    assert(t[k] == s.take(i as int)[k]);
                }
            }
        }
        i = i + 1;
    }
    assert(s.take(v.len() as int) =~= s);
    Some(out)
}

/// The printed form of `v`, as a string literal. When the tokens cannot be
/// read back, their source text is quoted instead.
pub fn printed_literal(v: &Vec<Token>) -> String {
    let source = match source_text_exec(v) {
        Some(s) => s,
        None => String::new(),
    };
    let text = match print_tokens(source.as_str()) {
        Some(t) => t,
        None => source,
    };
    string_literal(text.as_str())
}

} // verus!
