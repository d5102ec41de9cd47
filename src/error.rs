//! Errors of the pipeline.
use vstd::prelude::*;
use crate::tokens::{Token, TokenV, toks, copy_tokens};

verus! {

/// What went wrong.
#[derive(PartialEq, Eq, Structural, Clone, Copy, Debug)]
pub enum ErrorKind {
    /// The pipeline or resumption notation is malformed.
    Notation,
    /// A named field of the resumption notation is absent.
    MissingField,
    /// The arguments of a command do not have the shape that it expects.
    Argument,
    /// The declaration does not have the shape that a command needs.
    Shape,
    /// A consuming state was reached while commands were still pending.
    ConsumeNotLast,
    /// The commands ran out while the declaration was still being piped.
    PipeNotConsumed,
}

/// What an error says: its kind, its text and the command it occurred in.
pub struct ErrorV {
    pub kind: ErrorKind,
    pub detail: Seq<char>,
    pub command: Option<Seq<TokenV>>,
}

/// An error of the pipeline. `detail` names the missing field for
/// `MissingField`, and holds the message otherwise. `command` is the path of
/// the command during which the error occurred, when there is one.
#[derive(Debug, PartialEq, Eq)]
pub struct Error {
    pub kind: ErrorKind,
    pub detail: String,
    pub command: Option<Vec<Token>>,
}

impl View for Error {
    type V = ErrorV;

    open spec fn view(&self) -> ErrorV {
        ErrorV {
            kind: self.kind,
            detail: self.detail@,
            command: match self.command {
                Some(c) => Some(toks(c@)),
                None => None,
            },
        }
    }
}

/// An error of `kind` with text `d` that no command is blamed for.
pub open spec fn err_v(kind: ErrorKind, d: Seq<char>) -> ErrorV {
    ErrorV { kind, detail: d, command: None }
}

/// An error of the notation.
pub open spec fn notation_v(d: Seq<char>) -> ErrorV {
    err_v(ErrorKind::Notation, d)
}

impl Error {
    /// An error of `kind` with the text `d`.
    pub fn new(kind: ErrorKind, d: &str) -> (r: Error)
        ensures
            r@ == err_v(kind, d@),
    {
        Error { kind, detail: d.to_owned(), command: None }
    }

    /// The same error, blamed on the command whose path is `path`.
    pub fn in_command(self, path: &Vec<Token>) -> (r: Error)
        ensures
            r@ == (ErrorV { command: Some(toks(path@)), ..self@ }),
    {
        Error { kind: self.kind, detail: self.detail, command: Some(copy_tokens(path)) }
    }

    /// The text of the error.
    pub fn message(&self) -> (r: String)
        ensures
            r@ == self.detail@,
    {
        self.detail.clone()
    }
}

} // verus!
