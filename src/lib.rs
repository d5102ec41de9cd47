//! A token-rewriting pipeline for type declarations.
//!
//! A pipeline `Start -> command(args) -> ...` takes a declaration through a
//! chain of commands. The state machine in `transform` runs the commands in
//! the order in which they are written, keeps what is left to do in a
//! continuation (`rest::TransformRest`) that can be written as tokens and read
//! back, and hands the declaration and the continuation to a macro of the
//! user's when a command is not one of the built-ins (`builtin`, `commands`).
//! Tokens are modelled in `tokens`, declarations in `decl`.

pub mod builtin;
pub mod command;
pub mod commands;
pub mod decl;
pub mod emit;
pub mod error;
pub mod input;
pub mod laws;
pub mod literal;
pub mod rest;
pub mod state;
pub mod text;
pub mod tokens;
pub mod transform;
pub mod utils;
