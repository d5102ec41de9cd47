use transtype::command::Path;
use transtype::error::ErrorKind;
use transtype::literal::{Literal, Tag};
use transtype::input::{expand_pipe, parse_command_input_exec, parse_pipe, parse_predefined_input};
use transtype::tokens::{Delimiter, Spacing, Token};

/// Reads test input into tokens: identifiers, numbers, string literals,
/// punctuation and groups. A punctuation character directly followed by
/// another one is joined to it.
fn lex(s: &str) -> Vec<Token> {
    let chars: Vec<char> = s.chars().collect();
    let mut out = Vec::new();
    let mut i = 0;
    while i < chars.len() {
        let c = chars[i];
        if c.is_whitespace() {
            i += 1;
        } else if c.is_alphabetic() || c == '_' {
            let start = i;
            while i < chars.len() && (chars[i].is_alphanumeric() || chars[i] == '_') {
                i += 1;
            }
            out.push(Token::Ident(chars[start..i].iter().collect()));
        } else if c.is_ascii_digit() {
            let start = i;
            while i < chars.len() && chars[i].is_ascii_digit() {
                i += 1;
            }
            out.push(Token::Literal(chars[start..i].iter().collect()));
        } else if c == '"' {
            let start = i;
            i += 1;
            while chars[i] != '"' {
                i += 1;
            }
            i += 1;
            out.push(Token::Literal(chars[start..i].iter().collect()));
        } else if c == '(' || c == '{' || c == '[' {
            out.push(Token::Open(delimiter(c)));
            i += 1;
        } else if c == ')' || c == '}' || c == ']' {
            out.push(Token::Close(delimiter(c)));
            i += 1;
        } else {
            let joint = i + 1 < chars.len() && "=<>!~+-*/%^&|@.,;:#$?".contains(chars[i + 1]);
            out.push(Token::Punct(c, if joint { Spacing::Joint } else { Spacing::Alone }));
            i += 1;
        }
    }
    out
}

fn delimiter(c: char) -> Delimiter {
    match c {
        '(' | ')' => Delimiter::Paren,
        '{' | '}' => Delimiter::Brace,
        _ => Delimiter::Bracket,
    }
}

#[test]
fn pipe_input_reads_start_and_commands() {
    let (start, cmds) = parse_pipe(&lex("A -> rename(B) -> finish()")).unwrap();
    assert_eq!(start, Path { tokens: lex("A") });
    assert_eq!(cmds.len(), 2);
    assert_eq!(cmds[0].path.tokens, lex("rename"));
    assert_eq!(cmds[0].args, lex("B"));
    assert_eq!(cmds[1].path.tokens, lex("finish"));
    assert_eq!(cmds[1].args, vec![]);
    let (start, cmds) = parse_pipe(&lex("::m::A")).unwrap();
    assert_eq!(start.tokens, lex("::m::A"));
    assert!(cmds.is_empty());
}

#[test]
fn pipe_input_errors() {
    assert_eq!(parse_pipe(&lex("-> finish()")).unwrap_err().kind, ErrorKind::Notation);
    assert_eq!(parse_pipe(&lex("A B -> finish()")).unwrap_err().kind, ErrorKind::Notation);
    assert_eq!(parse_pipe(&lex("A -> finish")).unwrap_err().kind, ErrorKind::Notation);
}

#[test]
fn pipe_resumes_the_start() {
    let out = expand_pipe(&lex("A -> rename(B) -> finish()")).unwrap();
    assert_eq!(
        out.result.unwrap(),
        lex("A ! { rest = { this = { A } pipe = { -> rename(B) -> finish() } extra = { } marker = { } } }")
    );
    assert_eq!(out.marker, vec![]);
}

#[test]
fn predefined_input_fields() {
    let input = lex(
        "args = { rest = { this = { A } pipe = { -> finish() } extra = { } marker = { } } } \
         data = { struct A ; } extra = { impl A { } }",
    );
    let raw = parse_predefined_input(&input).unwrap();
    assert_eq!(raw.data, lex("struct A ;"));
    assert_eq!(raw.other, lex("impl A { }"));
    assert_eq!(raw.rest.pending().len(), 1);
    assert_eq!(raw.rest.this().tokens, lex("A"));
}

#[test]
fn predefined_input_missing_rest() {
    let e = parse_predefined_input(&lex("args = { } data = { struct A ; } extra = { }")).unwrap_err();
    assert_eq!(e.kind, ErrorKind::MissingField);
    assert_eq!(e.detail, "rest");
    let e = parse_predefined_input(&lex("args = { rest = { this = { A } extra = { } marker = { } } } data = { } extra = { }"))
        .unwrap_err();
    assert_eq!(e.kind, ErrorKind::MissingField);
    assert_eq!(e.detail, "pipe");
}

#[test]
fn command_input_fields() {
    let input = lex(
        "data = { struct A ; } args = { as struct B ; } \
         rest = { this = { extend } pipe = { } extra = { } marker = { } }",
    );
    let raw = parse_command_input_exec(&input).unwrap();
    assert_eq!(raw.data, lex("struct A ;"));
    assert_eq!(raw.other, lex("as struct B ;"));
    assert!(raw.rest.pending().is_empty());
    let e = parse_command_input_exec(&lex("data = { } rest = { }")).unwrap_err();
    assert_eq!(e.kind, ErrorKind::MissingField);
    assert_eq!(e.detail, "args");
}

#[test]
fn literal_reads_fields_in_any_order() {
    let lit = Literal::parse(&lex(
        "@ pipe rest = { this = { A } pipe = { -> finish() } extra = { } marker = { } } \
         marker = { m } data = { struct A ; } pipe = { -> rename(B) } extra = { x }",
    ))
    .unwrap();
    assert_eq!(lit.tag, Tag::Pipe);
    assert_eq!(lit.data, Some(lex("struct A ;")));
    assert_eq!(lit.path, None);
    let pending = lit.rest.pending();
    assert_eq!(pending.len(), 2);
    assert_eq!(pending[0].path.tokens, lex("rename"));
    assert_eq!(pending[1].path.tokens, lex("finish"));
    assert_eq!(lit.rest.extra(), &lex("x"));
    assert_eq!(lit.rest.marker(), &lex("m"));
}

#[test]
fn literal_resume_and_fork() {
    let lit = Literal::parse(&lex("@ resume path = { m :: B } rest = { this = { A } pipe = { } extra = { } marker = { } }"))
        .unwrap();
    assert_eq!(lit.tag, Tag::Resume);
    assert_eq!(lit.path.unwrap().tokens, lex("m :: B"));
    let lit = Literal::parse(&lex(
        "@ fork data = { struct A ; } fork = { X = { -> finish() } } rest = { this = { A } pipe = { } extra = { } marker = { } }",
    ))
    .unwrap();
    assert_eq!(lit.tag, Tag::Fork);
    let fork = lit.fork.unwrap();
    assert_eq!(fork.len(), 1);
    assert_eq!(fork[0].name, "X");
}

#[test]
fn literal_errors() {
    let e = Literal::parse(&lex("@ pipe data = { struct A ; }")).unwrap_err();
    assert_eq!(e.kind, ErrorKind::MissingField);
    assert_eq!(e.detail, "rest");
    let e = Literal::parse(&lex("@ resume rest = { this = { A } pipe = { } extra = { } marker = { } }")).unwrap_err();
    assert_eq!(e.kind, ErrorKind::MissingField);
    assert_eq!(e.detail, "path");
    let e = Literal::parse(&lex("@ pipe data = { } rest = { this = { A } extra = { } marker = { } }")).unwrap_err();
    assert_eq!(e.kind, ErrorKind::MissingField);
    assert_eq!(e.detail, "pipe");
    let e = Literal::parse(&lex("@ pipe data = { } data = { } rest = { }")).unwrap_err();
    assert_eq!(e.kind, ErrorKind::Notation);
    let e = Literal::parse(&lex("@ pipe fork = { } data = { } rest = { }")).unwrap_err();
    assert_eq!(e.kind, ErrorKind::Notation);
    let e = Literal::parse(&lex("@ stop data = { } rest = { }")).unwrap_err();
    assert_eq!(e.kind, ErrorKind::Notation);
    let e = Literal::parse(&lex("pipe data = { } rest = { }")).unwrap_err();
    assert_eq!(e.kind, ErrorKind::Notation);
}
