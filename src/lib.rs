//! The middle layer of a small compiler front end: typed views over a
//! concrete syntax tree, lowering into an arena-addressed IR, and a
//! traversal of that IR in a fixed pre-order.

pub mod syntax_kind;
pub mod syntax;
pub mod number;
pub mod ast;
pub mod hir;
pub mod arena;
pub mod database;
pub mod visitor;
pub mod ty;
