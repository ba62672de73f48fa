//! Catalog introspection and statement serialization engine.
//!
//! The crate reconstructs a relational database's logical state — custom
//! types, sequences, tables, constraints, indexes, stored rows, roles and
//! grants — as an ordered sequence of idempotent, re-executable statements.
//! It works on a captured catalog snapshot: the caller issues the catalog
//! queries over a live session and hands the structured results to the
//! serializers here, which render the statements through a [`sink::StatementSink`].

pub mod catalog;
pub mod dump;
pub mod encode;
pub mod retry;
pub mod roles;
pub mod schema;
pub mod sink;
pub mod text;
