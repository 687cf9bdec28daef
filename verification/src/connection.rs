//! The connection capability and the error taxonomy.
//!
//! A connection accepts one built statement at a time and returns a
//! definitive success or failure: an affected-row count (with the
//! generated key for inserts), a row set, or at most one row. Pooling,
//! transactions and wire protocols live behind this trait; the library
//! performs no retry and surfaces every connection failure unchanged.

use vstd::prelude::*;
use crate::value::Value;
use crate::statement::{DbBackend, Statement};

verus! {

/// The decode half of the error taxonomy: a row did not have the shape
/// the entity demands.
#[derive(Debug)]
pub enum DecodeError {
    /// An expected (possibly alias-prefixed) column was absent.
    Missing { column: String },
    /// The column was present but its value does not fit the column's
    /// declared type and nullability.
    TypeMismatch { column: String },
}

/// The mathematical value of a [`DecodeError`]: the offending column
/// name as a character sequence.
pub enum DecodeErrorView {
    Missing(Seq<char>),
    TypeMismatch(Seq<char>),
}

impl View for DecodeError {
    type V = DecodeErrorView;

    open spec fn view(&self) -> DecodeErrorView {
        match *self {
            DecodeError::Missing { column } => DecodeErrorView::Missing(column@),
            DecodeError::TypeMismatch { column } => DecodeErrorView::TypeMismatch(column@),
        }
    }
}

/// The error taxonomy: a malformed logical query (modeled for defensive
/// completeness; well-formed typed input cannot produce it), a failure
/// propagated unchanged from the connection layer, or a row-shape
/// mismatch on result materialization.
#[derive(Debug)]
pub enum DbErr {
    Build(String),
    Conn(String),
    Decode(DecodeError),
}

/// The outcome a connection reports for one executed statement.
#[derive(Debug, Clone, Copy)]
pub struct ExecResult {
    pub rows_affected: u64,
    pub last_insert_id: u64,
}

/// One raw row of a result set: column names (alias-prefixed where the
/// statement aliased them) and one value per column.
#[derive(Debug)]
pub struct Row {
    pub columns: Vec<String>,
    pub values: Vec<Value>,
}

impl Row {
    /// One value per column name.
    pub open spec fn wf(self) -> bool {
        self.columns@.len() == self.values@.len()
    }
}

/// The capability the executors consume: one statement in, one
/// definitive outcome back. Implemented outside the library (drivers,
/// pools, test doubles); nothing is assumed of an implementation beyond
/// its signature.
pub trait ConnectionTrait {
    /// The backend dialect statements must be rendered for.
    fn get_database_backend(&self) -> DbBackend;

    /// Executes a statement, returning the affected-row count.
    fn execute(&mut self, stmt: Statement) -> Result<ExecResult, DbErr>;

    /// Executes a query, returning every row.
    fn query_all(&mut self, stmt: Statement) -> Result<Vec<Row>, DbErr>;

    /// Executes a query, returning at most one row.
    fn query_one(&mut self, stmt: Statement) -> Result<Option<Row>, DbErr>;
}

} // verus!
