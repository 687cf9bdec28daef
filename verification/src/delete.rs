//! The delete executors. The delete path is two-layered: the
//! entity-level [`DeleteOne`] and [`DeleteMany`] first ask the
//! soft-delete policy resolver whether to rewrite, then hand the
//! resulting statement — delete or update — to the low-level [`Deleter`]
//! for building and execution. Every executor owns its statement and is
//! consumed by execution: single use, and nothing borrowed is held
//! across the connection call.

use vstd::prelude::*;
use crate::entity::{EntityDef, Model};
use crate::statement::{
    DbBackend, Statement, Cond, DeleteStatement, StatementBuilder, spec_render_delete,
};
use crate::soft_delete::{
    resolve_delete, spec_soft_delete_update_sql, lemma_resolve_delete_render,
};
use crate::connection::{ConnectionTrait, ExecResult, DbErr};
use crate::query::{spec_pk_conds, push_pk_conds};

verus! {

/// The outcome of an executed delete path: how many rows the connection
/// reported affected.
#[derive(Debug, Clone, Copy)]
pub struct DeleteResult {
    pub rows_affected: u64,
}

/// The delete outcome derived strictly from the connection's reported
/// result: the affected-row count, taken over unchanged.
pub fn delete_result_of(res: &ExecResult) -> (r: DeleteResult)
    ensures
        r.rows_affected == res.rows_affected,
{
    DeleteResult { rows_affected: res.rows_affected }
}

/// The low-level deleter: owns one buildable statement and executes it
/// exactly once.
#[derive(Debug)]
pub struct Deleter<Q: StatementBuilder> {
    pub query: Q,
}

impl<Q: StatementBuilder> Deleter<Q> {
    pub fn new(query: Q) -> (r: Self)
        ensures
            r.query == query,
    {
        Deleter { query }
    }

    /// Builds the owned statement for the connection's backend and
    /// executes it once, consuming the executor. The outcome is the
    /// connection's to decide: its reported count on success (mapped by
    /// [`delete_result_of`]), its error surfaced unchanged on failure —
    /// no retry.
    pub fn exec<C: ConnectionTrait>(self, db: &mut C) -> (r: Result<DeleteResult, DbErr>) {
        let backend = db.get_database_backend();
        let stmt = self.query.build(backend);
        exec_delete(stmt, db)
    }
}

fn exec_delete<C: ConnectionTrait>(statement: Statement, db: &mut C) -> (r: Result<
    DeleteResult,
    DbErr,
>) {
    match db.execute(statement) {
        Result::Ok(res) => Result::Ok(delete_result_of(&res)),
        Result::Err(e) => Result::Err(e),
    }
}

fn exec_delete_only<C: ConnectionTrait>(
    entity: &EntityDef,
    delete_stmt: DeleteStatement,
    db: &mut C,
) -> (r: Result<DeleteResult, DbErr>)
    requires
        entity.wf(),
{
    let rewritten = resolve_delete(entity, delete_stmt);
    Deleter::new(rewritten).exec(db)
}

/// A delete of every row matching a caller-supplied condition set.
#[derive(Debug)]
pub struct DeleteMany {
    pub entity: EntityDef,
    pub query: DeleteStatement,
}

/// The `delete_many` entry point: a delete over the whole table,
/// narrowed by chained [`DeleteMany::filter`] calls.
pub fn delete_many(entity: EntityDef) -> (r: DeleteMany)
    requires
        entity.wf(),
    ensures
        r.entity == entity,
        r.query.table@ == entity.table@,
        r.query.conditions@.len() == 0,
{
    let table = entity.table.clone();
    DeleteMany { entity, query: DeleteStatement { table, conditions: Vec::new() } }
}

impl DeleteMany {
    /// Appends one caller-supplied conjunct.
    pub fn filter(self, c: Cond) -> (r: DeleteMany)
        ensures
            r.entity == self.entity,
            r.query.table == self.query.table,
            r.query.conditions@ == self.query.conditions@.push(c),
    {
        let mut query = self.query;
        query.conditions.push(c);
        DeleteMany { entity: self.entity, query }
    }

    /// Resolves the soft-delete policy and renders the statement. For an
    /// entity without a soft-delete column this is the DELETE with the
    /// filter unchanged; for one with a policy it is the rewritten
    /// UPDATE setting that column, whose WHERE text is byte-identical to
    /// the plain DELETE's.
    pub fn build(self, backend: DbBackend) -> (s: Statement)
        requires
            self.entity.wf(),
        ensures
            s.backend == backend,
            self.entity.soft_delete is None ==> s.sql@ == spec_render_delete(self.query, backend),
            self.entity.soft_delete is Some ==> s.sql@ == spec_soft_delete_update_sql(
                self.entity,
                self.query.conditions@,
                backend,
            ),
    {
        let DeleteMany { entity, query } = self;
        let ghost q = query;
        let rewritten = resolve_delete(&entity, query);
        proof {
            lemma_resolve_delete_render(entity, q, rewritten, backend);
        }
        rewritten.build(backend)
    }

    /// Resolves the soft-delete policy, builds for the connection's
    /// backend, and executes once; the connection decides the outcome,
    /// which is surfaced unchanged.
    pub fn exec<C: ConnectionTrait>(self, db: &mut C) -> (r: Result<DeleteResult, DbErr>)
        requires
            self.entity.wf(),
    {
        let DeleteMany { entity, query } = self;
        exec_delete_only(&entity, query, db)
    }
}

/// A delete of exactly one model, by its primary key.
#[derive(Debug)]
pub struct DeleteOne {
    pub entity: EntityDef,
    pub query: DeleteStatement,
}

/// The `delete_one` entry point: a delete narrowed to the model's
/// primary key, one conjunct per key column.
pub fn delete_one(entity: EntityDef, model: &Model) -> (r: DeleteOne)
    requires
        entity.wf(),
        model.wf(entity),
    ensures
        r.entity == entity,
        r.query.table@ == entity.table@,
        spec_pk_conds(r.query.conditions@, entity, entity.table@, *model),
{
    let mut conditions: Vec<Cond> = Vec::new();
    push_pk_conds(&mut conditions, &entity, entity.table.as_str(), model, 0);
    proof {
        assert forall|j: int| 0 <= j < entity.primary_key@.len() implies {
            &&& (#[trigger] conditions@[j]) matches Cond::ColEq(cr, v2)
            &&& conditions@[j]->ColEq_0.table@ == entity.table@
            &&& conditions@[j]->ColEq_0.column@ == entity.columns@[
                entity.primary_key@[j] as int
            ].name@
            &&& conditions@[j]->ColEq_1@ == model.values@[entity.primary_key@[j] as int]@
        } by {
            assert(conditions@[0 + j] matches Cond::ColEq(cr, v2));
        }
    }
    let table = entity.table.clone();
    DeleteOne { entity, query: DeleteStatement { table, conditions } }
}

impl DeleteOne {
    /// Resolves the soft-delete policy and renders the statement, as
    /// [`DeleteMany::build`] does.
    pub fn build(self, backend: DbBackend) -> (s: Statement)
        requires
            self.entity.wf(),
        ensures
            s.backend == backend,
            self.entity.soft_delete is None ==> s.sql@ == spec_render_delete(self.query, backend),
            self.entity.soft_delete is Some ==> s.sql@ == spec_soft_delete_update_sql(
                self.entity,
                self.query.conditions@,
                backend,
            ),
    {
        let DeleteOne { entity, query } = self;
        let ghost q = query;
        let rewritten = resolve_delete(&entity, query);
        proof {
            lemma_resolve_delete_render(entity, q, rewritten, backend);
        }
        rewritten.build(backend)
    }

    /// Resolves the soft-delete policy, builds for the connection's
    /// backend, and executes once; the connection decides the outcome,
    /// which is surfaced unchanged.
    pub fn exec<C: ConnectionTrait>(self, db: &mut C) -> (r: Result<DeleteResult, DbErr>)
        requires
            self.entity.wf(),
    {
        let DeleteOne { entity, query } = self;
        exec_delete_only(&entity, query, db)
    }
}

} // verus!
