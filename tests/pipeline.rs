use transtype::builtin::{lookup_builtin, Builtin};
use transtype::command::{parse_commands_exec, Path, PipeCommand};
use transtype::commands::{decimal_string, Extend, Selectors};
use transtype::decl::{Attribute, Body, Declaration, Field, Fields, TypeShape, Variant};
use transtype::error::ErrorKind;
use transtype::rest::TransformRest;
use transtype::state::{ForkCommand, TransformConsume, TransformState};
use transtype::tokens::{Delimiter, Spacing, Token};
use transtype::transform::{Expansion, TransformInput, Transformer};

/// Reads test input into tokens: identifiers, numbers, string literals,
/// punctuation and groups. A punctuation character directly followed by
/// another one is joined to it.
fn lex(s: &str) -> Vec<Token> {
    let chars: Vec<char> = s.chars().collect();
    let mut out = Vec::new();
    let mut i = 0;
    while i < chars.len() {
        let c = chars[i];
        if c.is_whitespace() {
            i += 1;
        } else if c.is_alphabetic() || c == '_' {
            let start = i;
            while i < chars.len() && (chars[i].is_alphanumeric() || chars[i] == '_') {
                i += 1;
            }
            out.push(Token::Ident(chars[start..i].iter().collect()));
        } else if c.is_ascii_digit() {
            let start = i;
            while i < chars.len() && chars[i].is_ascii_digit() {
                i += 1;
            }
            out.push(Token::Literal(chars[start..i].iter().collect()));
        } else if c == '"' {
            let start = i;
            i += 1;
            while chars[i] != '"' {
                i += 1;
            }
            i += 1;
            out.push(Token::Literal(chars[start..i].iter().collect()));
        } else if c == '(' || c == '{' || c == '[' {
            out.push(Token::Open(delimiter(c)));
            i += 1;
        } else if c == ')' || c == '}' || c == ']' {
            out.push(Token::Close(delimiter(c)));
            i += 1;
        } else {
            let joint = i + 1 < chars.len() && "=<>!~+-*/%^&|@.,;:#$?".contains(chars[i + 1]);
            out.push(Token::Punct(c, if joint { Spacing::Joint } else { Spacing::Alone }));
            i += 1;
        }
    }
    out
}

fn delimiter(c: char) -> Delimiter {
    match c {
        '(' | ')' => Delimiter::Paren,
        '{' | '}' => Delimiter::Brace,
        _ => Delimiter::Bracket,
    }
}

fn path(s: &str) -> Path {
    Path { tokens: lex(s) }
}

fn field(name: &str, ty: &str) -> Field {
    Field {
        attrs: vec![],
        vis: lex("pub"),
        name: Some(name.to_string()),
        ty: lex(ty),
        shape: TypeShape::Path { leading_colon: false, first: ty.to_string() },
    }
}

/// `struct A { pub a: String, pub b: usize }`
fn struct_a() -> Declaration {
    Declaration {
        attrs: vec![],
        vis: vec![],
        name: "A".to_string(),
        generics: vec![],
        where_clause: vec![],
        body: Body::Struct(Fields::Named(vec![field("a", "String"), field("b", "usize")])),
    }
}

/// Runs `decl` through the commands written in `cmds`.
fn run(decl: Declaration, start: &str, cmds: &str) -> Expansion {
    let mut rest = TransformRest::empty(path(start));
    rest.with_pipe(parse_commands_exec(&lex(cmds)).unwrap());
    TransformState::pipe(decl).build().transform(rest)
}

fn marker_of(name: &str) -> Vec<Token> {
    lex(&format!(":: transtype :: {} ! {{ }}", name))
}

#[test]
fn rest_notation_round_trip() {
    let mut rest = TransformRest::empty(path("A"));
    rest.with_pipe(parse_commands_exec(&lex("-> rename(B) -> select(a, b as c) -> finish()")).unwrap());
    rest.with_extra(&lex("impl A { }"));
    rest.with_marker(&marker_of("rename"));
    let mut out = Vec::new();
    rest.to_tokens(&mut out);
    let back = TransformRest::parse(&out).unwrap();
    assert_eq!(back.pending(), rest.pending());
    assert_eq!(back.extra(), rest.extra());
    assert_eq!(back.marker(), rest.marker());
    assert_eq!(back.this(), rest.this());
    assert_eq!(back, rest);
}

#[test]
fn rest_notation_keeps_written_order() {
    let mut rest = TransformRest::empty(path("A"));
    rest.with_pipe(parse_commands_exec(&lex("-> one() -> two() -> three()")).unwrap());
    let mut out = Vec::new();
    rest.to_tokens(&mut out);
    assert_eq!(
        out,
        lex("this = { A } pipe = { -> one() -> two() -> three() } extra = { } marker = { }")
    );
}

#[test]
fn rest_notation_missing_pipe() {
    let e = TransformRest::parse(&lex("this={A} extra={} marker={}")).unwrap_err();
    assert_eq!(e.kind, ErrorKind::MissingField);
    assert_eq!(e.detail, "pipe");
    assert_eq!(e.message(), "pipe");
}

#[test]
fn rest_notation_malformed() {
    let e = TransformRest::parse(&lex("this={A} pipe={-> rename B} extra={} marker={}")).unwrap_err();
    assert_eq!(e.kind, ErrorKind::Notation);
    let e = TransformRest::parse(&lex("this={A} pipe={} extra={} marker={} more")).unwrap_err();
    assert_eq!(e.kind, ErrorKind::Notation);
    let e = TransformRest::parse(&lex("this={A} pipe={} extra={}")).unwrap_err();
    assert_eq!(e.kind, ErrorKind::MissingField);
    assert_eq!(e.detail, "marker");
}

#[test]
fn consume_with_pending_commands_fails() {
    let mut rest = TransformRest::empty(path("finish"));
    rest.with_pipe(parse_commands_exec(&lex("-> rename(B)")).unwrap());
    let out = TransformState::consume(lex("struct A;")).build().transform(rest);
    let e = out.result.unwrap_err();
    assert_eq!(e.kind, ErrorKind::ConsumeNotLast);
    assert_eq!(e.detail, "a consume command should not be followed by other commands");
    assert_eq!(e.command, Some(lex("finish")));
}

#[test]
fn consume_appends_extra() {
    let mut rest = TransformRest::empty(path("A"));
    rest.with_extra(&lex("impl A {}"));
    let out = TransformConsume { data: lex("struct A;") }.build().transform(rest);
    assert_eq!(out.result.unwrap(), lex("struct A; impl A {}"));
}

#[test]
fn pipe_without_commands_fails() {
    let out = run(struct_a(), "A", "");
    let e = out.result.unwrap_err();
    assert_eq!(e.kind, ErrorKind::PipeNotConsumed);
    assert_eq!(e.detail, "a pipe command should be consumed");
}

#[test]
fn finish_after_finish_fails() {
    let out = run(struct_a(), "A", "-> finish() -> finish()");
    assert_eq!(out.result.unwrap_err().kind, ErrorKind::ConsumeNotLast);
}

#[test]
fn commands_run_in_written_order() {
    let out = run(struct_a(), "A", "-> rename(B) -> rename(C) -> finish()");
    let mut expected = marker_of("rename");
    expected.extend(marker_of("rename"));
    expected.extend(marker_of("finish"));
    assert_eq!(out.marker, expected);
    let mut c = struct_a();
    c.name = "C".to_string();
    assert_eq!(out.result.unwrap(), c.into_tokens());
}

#[test]
fn markers_travel_with_the_continuation() {
    let mut rest = TransformRest::empty(path("A"));
    rest.with_pipe(parse_commands_exec(&lex("-> finish()")).unwrap());
    rest.with_marker(&marker_of("rename"));
    let mut notation = Vec::new();
    rest.to_tokens(&mut notation);
    let first = TransformState::pipe(struct_a())
        .build()
        .transform(TransformRest::parse(&notation).unwrap());
    let second = TransformState::pipe(struct_a())
        .build()
        .transform(TransformRest::parse(&notation).unwrap());
    let mut expected = marker_of("rename");
    expected.extend(marker_of("finish"));
    assert_eq!(first.marker, expected);
    assert_eq!(second.marker, expected);
    assert_eq!(first.result, second.result);
}

#[test]
fn marker_is_kept_on_error() {
    let mut rest = TransformRest::empty(path("A"));
    rest.with_pipe(parse_commands_exec(&lex("-> rename(B) -> wrap()")).unwrap());
    rest.with_marker(&marker_of("save"));
    let out = TransformState::pipe(struct_a()).build().transform(rest);
    let e = out.result.unwrap_err();
    assert_eq!(e.kind, ErrorKind::Argument);
    assert_eq!(e.command, Some(lex("wrap")));
    let mut expected = marker_of("save");
    expected.extend(marker_of("rename"));
    assert_eq!(out.marker, expected);
}

#[test]
fn rename_select_finish() {
    let out = run(struct_a(), "A", "-> rename(B) -> select(a) -> finish()");
    let expected = Declaration {
        name: "B".to_string(),
        body: Body::Struct(Fields::Named(vec![field("a", "String")])),
        ..struct_a()
    };
    let tokens = out.result.unwrap();
    assert_eq!(tokens, expected.into_tokens());
    assert_eq!(tokens, lex("struct B { pub a : String }"));
}

#[test]
fn unknown_command_is_handed_off() {
    let out = run(struct_a(), "A", "-> undefined_cmd(42) -> finish()");
    let tokens = out.result.unwrap();
    let mut expected = lex("undefined_cmd ! { data = {");
    expected.extend(struct_a().into_tokens());
    expected.extend(lex(
        "} args = { 42 } rest = { this = { undefined_cmd } pipe = { -> finish() } extra = { } marker = { } } }",
    ));
    assert_eq!(tokens, expected);
    assert_eq!(out.marker, vec![]);
}

/// Runs a fork of `decl` into the branches written in `branches`.
fn run_fork(decl: Declaration, branches: &[(&str, &str)]) -> Expansion {
    let forks = branches
        .iter()
        .map(|(name, cmds)| ForkCommand {
            name: name.to_string(),
            pipe: parse_commands_exec(&lex(cmds)).unwrap(),
        })
        .collect();
    TransformState::fork(decl).fork(forks).build().transform(TransformRest::empty(path("A")))
}

#[test]
fn fork_joins_independent_branches() {
    let forked = run_fork(
        struct_a(),
        &[("A", "-> finish()"), ("WrappedA", "-> wrap(Option) -> wrapped(A) -> finish()")],
    );
    let first = run(struct_a(), "A", "-> finish()");
    let second = run(struct_a(), "A", "-> rename(WrappedA) -> wrap(Option) -> wrapped(A) -> finish()");
    let mut expected = first.result.unwrap();
    expected.extend(second.result.unwrap());
    assert_eq!(forked.result.unwrap(), expected);
    assert_eq!(forked.marker, vec![]);
}

#[test]
fn fork_without_branches_consumes() {
    let out = TransformState::fork(struct_a()).build().transform(TransformRest::empty(path("A")));
    assert_eq!(out.result.unwrap(), struct_a().into_tokens());
}

#[test]
fn fork_is_not_a_builtin() {
    let out = run(struct_a(), "A", "-> fork(X={ -> finish() })");
    let tokens = out.result.unwrap();
    assert_eq!(tokens[..6].to_vec(), lex("fork ! { data = {"));
}

#[test]
fn wrap_and_wrapped() {
    let out = run(struct_a(), "A", "-> rename(WrappedA) -> wrap(Option) -> wrapped(A) -> finish()");
    let expected = lex(
        "struct WrappedA { pub a : Option :: < String > , pub b : Option :: < usize > } \
         impl :: transtype :: Wrapped for WrappedA { type Original = A ; \
         fn unwrap ( self ) -> Self :: Original { A { \
         a : :: transtype :: Wrapper :: unwrap ( self . a ) , \
         b : :: transtype :: Wrapper :: unwrap ( self . b ) , } } }",
    );
    assert_eq!(out.result.unwrap(), expected);
}

#[test]
fn wrap_keeps_already_wrapped_fields() {
    let mut decl = struct_a();
    decl.body = Body::Struct(Fields::Named(vec![
        field("a", "Option"),
        Field { shape: TypeShape::Other, ..field("b", "usize") },
    ]));
    let out = run(decl, "A", "-> wrap(Option) -> finish()");
    assert_eq!(out.result.unwrap(), lex("struct A { pub a : Option , pub b : usize }"));
}

#[test]
fn wrapped_on_tuple_struct() {
    let decl = Declaration {
        body: Body::Struct(Fields::Unnamed(vec![
            Field { name: None, ..field("x", "u8") },
            Field { name: None, ..field("x", "u16") },
        ])),
        ..struct_a()
    };
    let out = run(decl, "A", "-> wrapped(B) -> finish()");
    let expected = lex(
        "struct A ( pub u8 , pub u16 ) ; \
         impl :: transtype :: Wrapped for A { type Original = B ; \
         fn unwrap ( self ) -> Self :: Original { B ( \
         :: transtype :: Wrapper :: unwrap ( self . 0 ) , \
         :: transtype :: Wrapper :: unwrap ( self . 1 ) , ) } }",
    );
    assert_eq!(out.result.unwrap(), expected);
}

#[test]
fn wrap_on_enum_fails() {
    let decl = Declaration {
        body: Body::Enum(vec![Variant {
            attrs: vec![],
            name: "X".to_string(),
            fields: Fields::Unit,
            discriminant: vec![],
        }]),
        ..struct_a()
    };
    let out = run(decl, "A", "-> wrap(Option) -> finish()");
    let e = out.result.unwrap_err();
    assert_eq!(e.kind, ErrorKind::Shape);
    assert_eq!(e.detail, "only struct is supported now");
    assert_eq!(e.command, Some(lex("wrap")));
}

#[test]
fn select_attr_renames_and_drops() {
    let attr = |p: &str, t: &str| Attribute { path: path(p), tokens: lex(t) };
    let decl = Declaration {
        attrs: vec![attr("derive1", "(Clone, Copy)"), attr("derive2", "(Clone)"), attr("derive", "(Debug)")],
        ..struct_a()
    };
    let out = run(decl, "A", "-> select_attr(derive1 as derive, derive2 as _, _) -> select(b) -> finish()");
    assert_eq!(
        out.result.unwrap(),
        lex("# [ derive ( Clone , Copy ) ] # [ derive ( Debug ) ] struct A { pub b : usize }")
    );
}

#[test]
fn select_renames_fields_in_variants() {
    let decl = Declaration {
        body: Body::Enum(vec![Variant {
            attrs: vec![],
            name: "X".to_string(),
            fields: Fields::Named(vec![field("a", "u8"), field("b", "u8")]),
            discriminant: vec![],
        }]),
        ..struct_a()
    };
    let out = run(decl, "A", "-> select(b as c,) -> finish()");
    assert_eq!(out.result.unwrap(), lex("enum A { X { pub c : u8 } }"));
}

#[test]
fn selectors_parse_and_select() {
    let sels = Selectors::parse(&lex("a as b, c as _, _")).unwrap();
    assert_eq!(sels.select(&"a".to_string()), Some("b".to_string()));
    assert_eq!(sels.select(&"c".to_string()), None);
    assert_eq!(sels.select(&"z".to_string()), Some("z".to_string()));
    let only = Selectors::parse(&lex("x")).unwrap();
    assert_eq!(only.select(&"y".to_string()), None);
    assert_eq!(Selectors::parse(&lex("a b")).unwrap_err().kind, ErrorKind::Argument);
    assert_eq!(Selectors::parse(&lex("1")).unwrap_err().kind, ErrorKind::Argument);
}

#[test]
fn argument_errors() {
    let out = run(struct_a(), "A", "-> rename(1) -> finish()");
    let e = out.result.unwrap_err();
    assert_eq!(e.kind, ErrorKind::Argument);
    assert_eq!(e.command, Some(lex("rename")));
    let out = run(struct_a(), "A", "-> finish(now)");
    assert_eq!(out.result.unwrap_err().kind, ErrorKind::Argument);
    let out = run(struct_a(), "A", "-> wrapped()");
    assert_eq!(out.result.unwrap_err().kind, ErrorKind::Argument);
    let out = run(struct_a(), "A", "-> extend(struct { x: u8 })");
    assert_eq!(out.result.unwrap_err().kind, ErrorKind::Argument);
    let out = run(struct_a(), "A", "-> wrapped(1)");
    assert_eq!(out.result.unwrap_err().kind, ErrorKind::Argument);
    let out = run(struct_a(), "A", "-> wrapped(Vec<)");
    assert_eq!(out.result.unwrap_err().detail, "expected a type");
}

#[test]
fn save_defines_a_macro() {
    let mut rest = TransformRest::empty(path("A"));
    rest.with_pipe(parse_commands_exec(&lex("-> save(Saved)")).unwrap());
    rest.with_extra(&lex("impl A {}"));
    let out = TransformState::pipe(struct_a()).build().transform(rest);
    let mut expected = lex(
        "macro_rules ! Saved { ( $ ( $ args : tt ) * ) => { :: transtype :: __predefined ! { \
         args = { $ ( $ args ) * } data = {",
    );
    expected.extend(struct_a().into_tokens());
    expected.extend(lex("} extra = { impl A { } } } } ; }"));
    assert_eq!(out.result.unwrap(), expected);
}

#[test]
fn save_uses_the_declaration_name() {
    let out = run(struct_a(), "A", "-> save()");
    let tokens = out.result.unwrap();
    assert_eq!(tokens[..3].to_vec(), lex("macro_rules ! A"));
}

#[test]
fn debug_dumps_the_state() {
    let out = run(struct_a(), "A", "-> debug(x) -> finish()");
    let tokens = out.result.unwrap();
    let mut body = lex("data = {");
    body.extend(struct_a().into_tokens());
    body.extend(lex("} args = { x } rest = { this = { debug } pipe = { -> finish() } extra = { } marker = { :: transtype :: debug ! { } } }"));
    let text = "data = { struct A { pub a : String , pub b : usize } } args = { x } rest = { this = { debug } pipe = { -> finish () } extra = { } marker = { :: transtype :: debug ! { } } }";
    let mut expected = lex("macro_rules ! DEBUG_A { ( ) => { {");
    expected.push(Token::Literal(format!("{:?}", text)));
    expected.extend(lex("} } ; ( @ $ visit : path ) => { $ visit ! {"));
    expected.extend(body);
    expected.extend(lex("} } ; }"));
    assert_eq!(tokens, expected);
}

#[test]
fn extend_hands_the_declaration_to_the_target() {
    let out = run(struct_a(), "A", "-> extend(B) -> finish()");
    let mut expected = lex("B ! { rest = { this = { B } pipe = { -> extend ( as");
    expected.extend(struct_a().into_tokens());
    expected.extend(lex(") -> finish() } extra = { } marker = { :: transtype :: extend ! { } } } }"));
    assert_eq!(out.result.unwrap(), expected);
    assert_eq!(out.marker, marker_of("extend"));
}

#[test]
fn extend_as_goes_to_its_own_macro() {
    let out = run(struct_a(), "A", "-> extend(as struct B { }) -> finish()");
    let tokens = out.result.unwrap();
    assert_eq!(tokens[..11].to_vec(), lex(":: transtype :: extend ! { data = {"));
}

#[test]
fn resume_hands_over_the_continuation() {
    let mut rest = TransformRest::empty(path("start"));
    rest.with_pipe(parse_commands_exec(&lex("-> finish()")).unwrap());
    let state = TransformState::resume(path("A"))
        .pipe(parse_commands_exec(&lex("-> rename(B)")).unwrap())
        .build();
    let out = state.transform(rest);
    assert_eq!(
        out.result.unwrap(),
        lex("A ! { rest = { this = { A } pipe = { -> rename(B) -> finish() } extra = { } marker = { } } }")
    );
}

#[test]
fn builtin_lookup_is_exact() {
    assert_eq!(lookup_builtin("debug"), Some(Builtin::Debug));
    assert_eq!(lookup_builtin("extend"), Some(Builtin::Extend));
    assert_eq!(lookup_builtin("finish"), Some(Builtin::Finish));
    assert_eq!(lookup_builtin("fork"), None);
    assert_eq!(lookup_builtin("rename"), Some(Builtin::Rename));
    assert_eq!(lookup_builtin("save"), Some(Builtin::Save));
    assert_eq!(lookup_builtin("select"), Some(Builtin::Select));
    assert_eq!(lookup_builtin("select_attr"), Some(Builtin::SelectAttr));
    assert_eq!(lookup_builtin("wrap"), Some(Builtin::Wrap));
    assert_eq!(lookup_builtin("wrapped"), Some(Builtin::Wrapped));
    assert_eq!(lookup_builtin("selec"), None);
    assert_eq!(lookup_builtin("Rename"), None);
    assert_eq!(lookup_builtin("wrappedx"), None);
    assert_eq!(lookup_builtin(""), None);
}

#[test]
fn command_notation_is_checked() {
    assert!(parse_commands_exec(&lex("-> a::b(x)")).is_ok());
    assert!(parse_commands_exec(&lex("-> ::a(x)")).is_ok());
    assert_eq!(parse_commands_exec(&lex("-> a b(x)")).unwrap_err().kind, ErrorKind::Notation);
    assert_eq!(parse_commands_exec(&lex("-> a{x}")).unwrap_err().kind, ErrorKind::Notation);
    assert_eq!(parse_commands_exec(&lex("rename(x)")).unwrap_err().kind, ErrorKind::Notation);
    let cmds = parse_commands_exec(&lex("-> a(x (y) z) -> b()")).unwrap();
    assert_eq!(cmds.len(), 2);
    assert_eq!(cmds[0], PipeCommand::new(path("a"), lex("x (y) z")));
}

#[test]
fn decimal_notation() {
    assert_eq!(decimal_string(0), "0");
    assert_eq!(decimal_string(7), "7");
    assert_eq!(decimal_string(10), "10");
    assert_eq!(decimal_string(4096), "4096");
}

#[test]
fn extend_as_appends_named_fields() {
    let dest = struct_a();
    let mut src = struct_a();
    src.name = "B".to_string();
    src.body = Body::Struct(Fields::Named(vec![field("c", "usize")]));
    let state = Extend::extend_as(dest, src).unwrap();
    let mut rest = TransformRest::empty(path("extend"));
    rest.with_pipe(parse_commands_exec(&lex("-> finish()")).unwrap());
    let out = state.transform(rest);
    assert_eq!(
        out.result.unwrap(),
        lex("struct A { pub a : String , pub b : usize , pub c : usize }")
    );
    let unit = Declaration { body: Body::Struct(Fields::Unit), ..struct_a() };
    let e = Extend::extend_as(unit, struct_a()).map(|_| ()).unwrap_err();
    assert_eq!(e.kind, ErrorKind::Shape);
}

struct AddHello;

impl Transformer for AddHello {
    fn transform(
        data: Declaration,
        args: &Vec<Token>,
        rest: &mut TransformRest,
    ) -> Result<TransformState, transtype::error::Error> {
        let mut extra = lex("impl A { fn hello(&self) { println!(");
        extra.extend(args.clone());
        extra.extend(lex(") } }"));
        rest.with_extra(&extra);
        Ok(TransformState::pipe(data).build())
    }
}

#[test]
fn user_transformer_continues_the_pipeline() {
    let mut rest = TransformRest::empty(path("my_transformer"));
    rest.with_pipe(parse_commands_exec(&lex("-> finish()")).unwrap());
    let input = TransformInput { data: struct_a(), args: lex("\"Hello\""), rest };
    let out = input.transform::<AddHello>().unwrap();
    let mut expected = struct_a().into_tokens();
    expected.extend(lex("impl A { fn hello(&self) { println!(\"Hello\") } }"));
    assert_eq!(out.result.unwrap(), expected);
    assert_eq!(out.marker, marker_of("finish"));
}

#[test]
fn piping_commands_add_extra_in_order() {
    let out = run(struct_a(), "A", "-> wrapped(X) -> rename(B) -> wrapped(Y) -> wrapped(Z) -> finish()");
    let mut b = struct_a();
    b.name = "B".to_string();
    let imp = |name: &str, from: &str| {
        lex(&format!(
            "impl :: transtype :: Wrapped for {name} {{ type Original = {from} ; \
             fn unwrap ( self ) -> Self :: Original {{ {from} {{ \
             a : :: transtype :: Wrapper :: unwrap ( self . a ) , \
             b : :: transtype :: Wrapper :: unwrap ( self . b ) , }} }} }}"
        ))
    };
    let mut expected = b.into_tokens();
    expected.extend(imp("A", "X"));
    expected.extend(imp("B", "Y"));
    expected.extend(imp("B", "Z"));
    assert_eq!(out.result.unwrap(), expected);
    let mut marks = marker_of("wrapped");
    marks.extend(marker_of("rename"));
    marks.extend(marker_of("wrapped"));
    marks.extend(marker_of("wrapped"));
    marks.extend(marker_of("finish"));
    assert_eq!(out.marker, marks);
}

#[test]
fn extend_as_runs_the_rest_of_the_pipeline() {
    let mut src = struct_a();
    src.name = "B".to_string();
    src.body = Body::Struct(Fields::Named(vec![field("c", "usize")]));
    let mut rest = TransformRest::empty(path("B"));
    rest.with_pipe(parse_commands_exec(&lex("-> finish()")).unwrap());
    rest.with_marker(&marker_of("rename"));
    let out = Extend::run_as(struct_a(), src, rest);
    assert_eq!(
        out.result.unwrap(),
        lex("struct A { pub a : String , pub b : usize , pub c : usize }")
    );
    let mut marks = marker_of("rename");
    marks.extend(marker_of("extend"));
    marks.extend(marker_of("finish"));
    assert_eq!(out.marker, marks);
    let unit = Declaration { body: Body::Struct(Fields::Unit), ..struct_a() };
    let out = Extend::run_as(unit, struct_a(), TransformRest::empty(path("B")));
    let e = out.result.unwrap_err();
    assert_eq!(e.kind, ErrorKind::Shape);
    assert_eq!(e.command, Some(lex("extend")));
    assert_eq!(out.marker, vec![]);
}
