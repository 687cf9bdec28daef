//! A verified object-relational statement pipeline.
//!
//! The crate translates typed entity metadata and logical operations
//! (delete, update, insert, select with joins) into backend-specific SQL
//! statements, rewrites deletes into soft-delete updates where an entity
//! declares a soft-delete column, resolves direct and multi-hop relations
//! into join trees with merged soft-delete predicates, and decodes raw
//! rows back into typed models.

pub mod value;
pub mod entity;
pub mod statement;
pub mod render;
pub mod soft_delete;
pub mod query;
pub mod connection;
pub mod decode;
pub mod delete;
pub mod insert;
pub mod update;
