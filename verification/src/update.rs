//! The update executor: builds an UPDATE carrying exactly the staging
//! value's explicitly-set non-key fields, keyed on the primary key, and
//! maps the connection's reported count into the typed outcome.

use vstd::prelude::*;
use crate::entity::{EntityDef, ActiveModel, clone_value};
use crate::statement::{Assignment, Cond, ColRef, UpdateStatement, StatementBuilder};
use crate::connection::{ConnectionTrait, ExecResult, DbErr};

verus! {

/// The outcome of an executed update: how many rows the connection
/// reported affected.
#[derive(Debug, Clone, Copy)]
pub struct UpdateResult {
    pub rows_affected: u64,
}

/// The update outcome derived strictly from the connection's reported
/// result: the affected-row count, taken over unchanged.
pub fn update_result_of(res: &ExecResult) -> (r: UpdateResult)
    ensures
        r.rows_affected == res.rows_affected,
{
    UpdateResult { rows_affected: res.rows_affected }
}

/// Whether column `i` belongs to the entity's primary key.
pub open spec fn spec_is_pk(entity: EntityDef, i: int) -> bool {
    exists|k: int| 0 <= k < entity.primary_key@.len() && entity.primary_key@[k] == i
}

fn is_pk_from(entity: &EntityDef, i: usize, k: usize) -> (r: bool)
    requires
        k <= entity.primary_key@.len(),
    ensures
        r == (exists|k2: int|
            k <= k2 < entity.primary_key@.len() && entity.primary_key@[k2] == i as int),
    decreases entity.primary_key@.len() - k,
{
    if k < entity.primary_key.len() {
        if entity.primary_key[k] == i {
            true
        } else {
            is_pk_from(entity, i, k + 1)
        }
    } else {
        false
    }
}

fn is_pk(entity: &EntityDef, i: usize) -> (r: bool)
    ensures
        r == spec_is_pk(*entity, i as int),
{
    is_pk_from(entity, i, 0)
}

/// `asgs` is exactly the explicitly-set non-key fields of `am` from
/// column `i` on: one `column = value` per set slot, in column order,
/// and nothing else.
pub open spec fn spec_dirty_assigns_from(
    asgs: Seq<Assignment>,
    entity: EntityDef,
    am: ActiveModel,
    i: int,
) -> bool
    decreases entity.columns@.len() - i,
{
    if i < 0 || i >= entity.columns@.len() {
        asgs.len() == 0
    } else {
        if am.values@[i] is Some && !spec_is_pk(entity, i) {
            &&& asgs.len() >= 1
            &&& asgs[0].column@ == entity.columns@[i].name@
            &&& asgs[0].value@ == am.values@[i]->0@
            &&& spec_dirty_assigns_from(asgs.skip(1), entity, am, i + 1)
        } else {
            spec_dirty_assigns_from(asgs, entity, am, i + 1)
        }
    }
}

fn push_dirty_assigns(asgs: &mut Vec<Assignment>, entity: &EntityDef, am: &ActiveModel, i: usize)
    requires
        entity.wf(),
        am.wf(*entity),
        i <= entity.columns@.len(),
    ensures
        final(asgs)@.len() >= old(asgs)@.len(),
        final(asgs)@.take(old(asgs)@.len() as int) == old(asgs)@,
        spec_dirty_assigns_from(
            final(asgs)@.skip(old(asgs)@.len() as int),
            *entity,
            *am,
            i as int,
        ),
    decreases entity.columns@.len() - i,
{
    if i < entity.columns.len() {
        let set_here = match &am.values[i] {
            Option::Some(_) => true,
            Option::None => false,
        };
        if set_here && !is_pk(entity, i) {
            let column = entity.columns[i].name.clone();
            let value = match &am.values[i] {
                Option::Some(v) => clone_value(v),
                Option::None => {
                    proof {
                        assert(false);
                    }
                    unreached()
                },
            };
            asgs.push(Assignment { column, value });
            let ghost mid = asgs@;
            push_dirty_assigns(asgs, entity, am, i + 1);
            proof {
                let oldlen = old(asgs)@.len() as int;
                assert(asgs@.take(mid.len() as int) == mid);
                assert(asgs@.take(oldlen) =~= old(asgs)@);
                assert(asgs@[oldlen] == asgs@.take(mid.len() as int)[oldlen]);
                assert(asgs@.skip(oldlen)[0] == asgs@[oldlen]);
                assert(asgs@.skip(oldlen).skip(1) =~= asgs@.skip(mid.len() as int));
            }
        } else {
            push_dirty_assigns(asgs, entity, am, i + 1);
        }
    } else {
        proof {
            assert(asgs@.skip(old(asgs)@.len() as int) =~= Seq::<Assignment>::empty());
        }
    }
}

fn push_pk_conds_active(cs: &mut Vec<Cond>, entity: &EntityDef, am: &ActiveModel, k: usize)
    requires
        entity.wf(),
        am.wf(*entity),
        k <= entity.primary_key@.len(),
        forall|k2: int|
            0 <= k2 < entity.primary_key@.len() ==> (#[trigger] am.values@[
                entity.primary_key@[k2] as int
            ]) is Some,
    ensures
        final(cs)@.len() == old(cs)@.len() + (entity.primary_key@.len() - k),
        final(cs)@.take(old(cs)@.len() as int) == old(cs)@,
        forall|j: int|
            0 <= j < entity.primary_key@.len() - k ==> {
                &&& (#[trigger] final(cs)@[old(cs)@.len() + j]) matches Cond::ColEq(cr, v)
                &&& final(cs)@[old(cs)@.len() + j]->ColEq_0.table@ == entity.table@
                &&& final(cs)@[old(cs)@.len() + j]->ColEq_0.column@ == entity.columns@[
                    entity.primary_key@[k + j] as int
                ].name@
                &&& final(cs)@[old(cs)@.len() + j]->ColEq_1@ == am.values@[
                    entity.primary_key@[k + j] as int
                ]->0@
            },
    decreases entity.primary_key@.len() - k,
{
    if k < entity.primary_key.len() {
        let i = entity.primary_key[k];
        let table = entity.table.clone();
        let column = entity.columns[i].name.clone();
        let value = match &am.values[i] {
            Option::Some(v) => clone_value(v),
            Option::None => {
                proof {
                    assert(false);
                }
                unreached()
            },
        };
        cs.push(Cond::ColEq(ColRef { table, column }, value));
        let ghost mid = cs@;
        push_pk_conds_active(cs, entity, am, k + 1);
        proof {
            let oldlen = old(cs)@.len() as int;
            assert(cs@.take(mid.len() as int) == mid);
            assert(cs@.take(oldlen) =~= old(cs)@);
            assert forall|j: int| 0 <= j < entity.primary_key@.len() - k implies {
                &&& (#[trigger] cs@[oldlen + j]) matches Cond::ColEq(cr, v)
                &&& cs@[oldlen + j]->ColEq_0.table@ == entity.table@
                &&& cs@[oldlen + j]->ColEq_0.column@ == entity.columns@[
                    entity.primary_key@[k + j] as int
                ].name@
                &&& cs@[oldlen + j]->ColEq_1@ == am.values@[entity.primary_key@[k + j] as int]->0@
            } by {
                if j == 0 {
                    assert(cs@[oldlen] == cs@.take(mid.len() as int)[oldlen]);
                    assert(cs@[oldlen] == mid[oldlen]);
                } else {
                    assert(cs@[mid.len() + (j - 1)] matches Cond::ColEq(cr, v));
                    assert(oldlen + j == mid.len() + (j - 1));
                }
            }
        }
    }
}

/// Builds the UPDATE for a staging value: the target table, only the
/// explicitly-set non-key fields in the SET list, keyed on the primary
/// key's (set) values.
pub fn update(entity: &EntityDef, am: &ActiveModel) -> (r: UpdateStatement)
    requires
        entity.wf(),
        am.wf(*entity),
        forall|k: int|
            0 <= k < entity.primary_key@.len() ==> (#[trigger] am.values@[
                entity.primary_key@[k] as int
            ]) is Some,
    ensures
        r.table@ == entity.table@,
        spec_dirty_assigns_from(r.assignments@, *entity, *am, 0),
        r.conditions@.len() == entity.primary_key@.len(),
        forall|j: int|
            0 <= j < entity.primary_key@.len() ==> {
                &&& (#[trigger] r.conditions@[j]) matches Cond::ColEq(cr, v)
                &&& r.conditions@[j]->ColEq_0.table@ == entity.table@
                &&& r.conditions@[j]->ColEq_0.column@ == entity.columns@[
                    entity.primary_key@[j] as int
                ].name@
                &&& r.conditions@[j]->ColEq_1@ == am.values@[entity.primary_key@[j] as int]->0@
            },
{
    let mut assignments: Vec<Assignment> = Vec::new();
    push_dirty_assigns(&mut assignments, entity, am, 0);
    proof {
        assert(assignments@.skip(0) =~= assignments@);
    }
    let mut conditions: Vec<Cond> = Vec::new();
    push_pk_conds_active(&mut conditions, entity, am, 0);
    proof {
        assert forall|j: int| 0 <= j < entity.primary_key@.len() implies {
            &&& (#[trigger] conditions@[j]) matches Cond::ColEq(cr, v)
            &&& conditions@[j]->ColEq_0.table@ == entity.table@
            &&& conditions@[j]->ColEq_0.column@ == entity.columns@[
                entity.primary_key@[j] as int
            ].name@
            &&& conditions@[j]->ColEq_1@ == am.values@[entity.primary_key@[j] as int]->0@
        } by {
            assert(conditions@[0 + j] matches Cond::ColEq(cr, v));
        }
    }
    let table = entity.table.clone();
    UpdateStatement { table, assignments, conditions }
}

/// The low-level updater: owns one UPDATE and executes it exactly once.
#[derive(Debug)]
pub struct Updater {
    pub query: UpdateStatement,
}

impl Updater {
    pub fn new(query: UpdateStatement) -> (r: Self)
        ensures
            r.query == query,
    {
        Updater { query }
    }

    /// Builds the owned statement for the connection's backend and
    /// executes it once, consuming the executor. The outcome is the
    /// connection's: its reported count on success (mapped by
    /// [`update_result_of`]), its error surfaced unchanged on failure.
    pub fn exec<C: ConnectionTrait>(self, db: &mut C) -> (r: Result<UpdateResult, DbErr>) {
        let backend = db.get_database_backend();
        let stmt = self.query.build(backend);
        match db.execute(stmt) {
            Result::Ok(res) => Result::Ok(update_result_of(&res)),
            Result::Err(e) => Result::Err(e),
        }
    }
}

} // verus!
