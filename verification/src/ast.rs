//! The abstract syntax tree: what the parser builds and the evaluator walks.

pub mod expr;
pub mod stmt;

pub use crate::ast::expr::{Expr, ExprView};
pub use crate::ast::stmt::{statements_view, Stmt, StmtView};
