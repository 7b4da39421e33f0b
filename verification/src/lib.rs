//! A verified recursive-descent parser for a small SQL-flavoured query DSL.
//!
//! A classified token stream (produced by an external tokenizer) is turned
//! into a strongly typed abstract syntax tree covering four statement kinds
//! — select, insert, update, delete — with optional clauses for joins,
//! filtering, grouping, ordering, pagination, locking and returned columns.
//! Every filter node may carry a guard expression that a downstream consumer
//! evaluates to decide whether the node survives into the final query.
//!
//! The grammar is stated once, as specification-level functions over the
//! token sequence (`grammar`); the executable parsers (`parser`, `stmt`)
//! are proved to return exactly what those functions say. The canonical
//! token form of a tree is stated in `emit` and produced by the serializer
//! in `serial`, and `laws` proves that parsing, re-serializing and
//! re-parsing yields the same tree.

pub mod ast;
pub mod parser;
pub mod stmt;
pub mod emit;
pub mod error;
pub mod grammar;
pub mod laws;
pub mod serial;
pub mod token;
