//! Lowering of a concrete parse tree into an arena-backed abstract syntax
//! tree for a small statically-typed language with Portuguese keywords.
//!
//! The crate is organized as follows:
//! - [`ast`] holds the arena, the typed node identifiers, and the node
//!   payload types that make up the abstract syntax tree.
//! - [`cst`] holds the crate's own model of a concrete parse tree: a flat,
//!   index-based tree of nodes with a kind tag, named child fields, source
//!   spans and leaf text.
//! - [`lower`] holds the specification of the lowering transform: a pure,
//!   recursive interpreter from parse-tree nodes to arena states.
//! - [`text`] holds the verified text primitives: string-slice equality
//!   and decimal integer parsing.
//! - [`tso_parser`] holds the executable lowering engine, verified against
//!   the interpreter in [`lower`].
//! - [`laws`] holds the proved global properties of the transform.

pub mod ast;
pub mod cst;
pub mod laws;
pub mod lower;
pub mod text;
pub mod tso_parser;
