//! The soft-delete policy resolver: the single place that decides, at the
//! start of every delete-statement construction, whether a logical DELETE
//! is passed through or rewritten into an UPDATE that sets the entity's
//! soft-delete column to its policy sentinel.

use vstd::prelude::*;
use crate::value::spec_value_sql;
use crate::entity::{EntityDef, clone_value};
use crate::statement::{
    DbBackend, Statement, Cond, DeleteStatement, Assignment, UpdateStatement, StatementBuilder,
    spec_quoted, spec_where, spec_render_delete, spec_render_update,
};
use crate::render::{render_delete, render_update};

verus! {

/// The outcome of resolving a delete against an entity's policy: the
/// original DELETE passed through, or the rewritten UPDATE.
#[derive(Debug)]
pub enum RewrittenStatement {
    Delete(DeleteStatement),
    Update(UpdateStatement),
}

impl StatementBuilder for RewrittenStatement {
    open spec fn spec_build(&self, backend: DbBackend) -> Seq<char> {
        match *self {
            RewrittenStatement::Delete(d) => spec_render_delete(d, backend),
            RewrittenStatement::Update(u) => spec_render_update(u, backend),
        }
    }

    fn build(&self, backend: DbBackend) -> (s: Statement) {
        match self {
            RewrittenStatement::Delete(d) => {
                let sql = render_delete(d, backend);
                Statement { sql, backend }
            },
            RewrittenStatement::Update(u) => {
                let sql = render_update(u, backend);
                Statement { sql, backend }
            },
        }
    }
}

/// Inspects the entity for a soft-delete policy. Without one, the DELETE
/// passes through unchanged. With one, the WHERE conditions are taken off
/// the original statement by value and attached unchanged to a new UPDATE
/// on the same table whose single assignment sets the soft-delete column
/// to the policy sentinel; no other clause survives (a delete carries
/// none). A DELETE without conditions becomes an UPDATE without
/// conditions, touching every row.
pub fn resolve_delete(entity: &EntityDef, stmt: DeleteStatement) -> (r: RewrittenStatement)
    requires
        entity.wf(),
    ensures
        entity.soft_delete is None ==> r == RewrittenStatement::Delete(stmt),
        entity.soft_delete is Some ==> (r matches RewrittenStatement::Update(u) && {
            &&& u.table@ == entity.table@
            &&& u.assignments@.len() == 1
            &&& u.assignments@[0].column@ == entity.spec_soft_delete_name()
            &&& u.assignments@[0].value@ == entity.soft_delete->0.deleted_value@
            &&& u.conditions == stmt.conditions
        }),
{
    match &entity.soft_delete {
        Option::None => RewrittenStatement::Delete(stmt),
        Option::Some(p) => {
            let DeleteStatement { table: _discarded, conditions } = stmt;
            let column = entity.columns[p.column].name.clone();
            let value = clone_value(&p.deleted_value);
            let table = entity.table.clone();
            let assignments = vec![Assignment { column, value }];
            RewrittenStatement::Update(UpdateStatement { table, assignments, conditions })
        },
    }
}

/// The text of a rendered DELETE up to (and without) its WHERE clause:
/// independent of the statement's conditions.
pub open spec fn spec_delete_head(table: Seq<char>, b: DbBackend) -> Seq<char> {
    seq!['D', 'E', 'L', 'E', 'T', 'E', ' ', 'F', 'R', 'O', 'M', ' '] + spec_quoted(table, b)
}

/// The text of the rewritten soft-delete UPDATE up to (and without) its
/// WHERE clause: independent of the statement's conditions.
pub open spec fn spec_soft_delete_update_head(entity: EntityDef, b: DbBackend) -> Seq<char>
    recommends
        entity.wf(),
        entity.soft_delete is Some,
{
    seq!['U', 'P', 'D', 'A', 'T', 'E', ' '] + spec_quoted(entity.table@, b)
        + seq![' ', 'S', 'E', 'T', ' '] + spec_quoted(entity.spec_soft_delete_name(), b)
        + seq![' ', '=', ' '] + spec_value_sql(entity.soft_delete->0.deleted_value@)
}

/// The full text of the rewritten soft-delete UPDATE for the given
/// conditions.
pub open spec fn spec_soft_delete_update_sql(
    entity: EntityDef,
    conds: Seq<Cond>,
    b: DbBackend,
) -> Seq<char>
    recommends
        entity.wf(),
        entity.soft_delete is Some,
{
    spec_soft_delete_update_head(entity, b) + spec_where(conds, b)
}

/// Law: for an entity with a soft-delete policy, the rewritten UPDATE's
/// text is a condition-independent head followed by exactly the WHERE
/// text that a plain DELETE with the same conditions ends in — the WHERE
/// clauses of the two statements are byte-identical.
pub proof fn lemma_soft_delete_where_identical(entity: EntityDef, d: DeleteStatement, b: DbBackend)
    requires
        entity.wf(),
        entity.soft_delete is Some,
    ensures
        spec_soft_delete_update_sql(entity, d.conditions@, b) == spec_soft_delete_update_head(
            entity,
            b,
        ) + spec_where(d.conditions@, b),
        spec_render_delete(d, b) == spec_delete_head(d.table@, b) + spec_where(d.conditions@, b),
{
    assert(spec_render_delete(d, b) =~= spec_delete_head(d.table@, b) + spec_where(
        d.conditions@,
        b,
    ));
}

/// Law: the UPDATE an entity's policy rewrites a delete into renders as
/// [`spec_soft_delete_update_sql`]; the delete path never renders a
/// `DELETE` for a soft-deleting entity, and renders the DELETE unchanged
/// for every other entity.
pub proof fn lemma_resolve_delete_render(
    entity: EntityDef,
    stmt: DeleteStatement,
    r: RewrittenStatement,
    b: DbBackend,
)
    requires
        entity.wf(),
        entity.soft_delete is None ==> r == RewrittenStatement::Delete(stmt),
        entity.soft_delete is Some ==> (r matches RewrittenStatement::Update(u) && {
            &&& u.table@ == entity.table@
            &&& u.assignments@.len() == 1
            &&& u.assignments@[0].column@ == entity.spec_soft_delete_name()
            &&& u.assignments@[0].value@ == entity.soft_delete->0.deleted_value@
            &&& u.conditions == stmt.conditions
        }),
    ensures
        entity.soft_delete is Some ==> r.spec_build(b) == spec_soft_delete_update_sql(
            entity,
            stmt.conditions@,
            b,
        ),
        entity.soft_delete is None ==> r.spec_build(b) == spec_render_delete(stmt, b),
{
    match r {
        RewrittenStatement::Update(u) => {
            if entity.soft_delete is Some {
                assert(spec_render_update(u, b) =~= spec_soft_delete_update_sql(
                    entity,
                    stmt.conditions@,
                    b,
                ));
            }
        },
        RewrittenStatement::Delete(_) => {},
    }
}

} // verus!
