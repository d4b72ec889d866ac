//! A tree-walking interpreter for a small dynamically typed scripting
//! language: a scanner, a recursive-descent parser, a scope-chain environment
//! and an evaluator.
//!
//! The front end ([`frontend`]) turns source text into tokens and tokens into
//! the syntax tree ([`ast`]). The back end ([`backend`]) walks the tree.
//!
//! The evaluator is a resumable machine. It never prints and never does
//! arithmetic on a binary64 number: it hands such work to its caller as a
//! [`backend::Action`] and takes the answer back as a [`backend::Event`]. A
//! program that never ends is a machine that never says `Finished`; the loop
//! around it is the caller's. What expressions and statements mean is stated
//! directly in [`backend::semantics`], with the proof that the machine
//! computes it.

pub mod ast;
pub mod backend;
pub mod frontend;
pub mod lox;
pub mod lox_error;
pub mod text;

pub use crate::lox::{Lox, LoxResult, Reading};
pub use crate::lox_error::{LoxError, LoxErrorView};
