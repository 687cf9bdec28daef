//! The insert executor: builds an INSERT carrying exactly the staging
//! value's explicitly-set fields, and maps the connection's reported
//! generated key into the typed outcome.

use vstd::prelude::*;
use crate::value::Value;
use crate::entity::{EntityDef, ActiveModel, Model, clone_value};
use crate::statement::{InsertStatement, StatementBuilder};
use crate::connection::{ConnectionTrait, ExecResult, DbErr};

verus! {

/// The outcome of an executed insert: the generated key the connection
/// reported.
#[derive(Debug, Clone, Copy)]
pub struct InsertResult {
    pub last_insert_id: u64,
}

/// The insert outcome derived strictly from the connection's reported
/// result: the generated key, taken over unchanged.
pub fn insert_result_of(res: &ExecResult) -> (r: InsertResult)
    ensures
        r.last_insert_id == res.last_insert_id,
{
    InsertResult { last_insert_id: res.last_insert_id }
}

/// `cols` and `vals` are exactly the explicitly-set fields of `am` from
/// column `i` on: one name and one value per set slot, in column order,
/// and nothing else.
pub open spec fn spec_dirty_from(
    cols: Seq<String>,
    vals: Seq<Value>,
    entity: EntityDef,
    am: ActiveModel,
    i: int,
) -> bool
    decreases entity.columns@.len() - i,
{
    if i < 0 || i >= entity.columns@.len() {
        cols.len() == 0 && vals.len() == 0
    } else {
        match am.values@[i] {
            Option::Some(v) => {
                &&& cols.len() >= 1
                &&& vals.len() >= 1
                &&& cols[0]@ == entity.columns@[i].name@
                &&& vals[0]@ == v@
                &&& spec_dirty_from(cols.skip(1), vals.skip(1), entity, am, i + 1)
            },
            Option::None => spec_dirty_from(cols, vals, entity, am, i + 1),
        }
    }
}

fn push_dirty(
    cols: &mut Vec<String>,
    vals: &mut Vec<Value>,
    entity: &EntityDef,
    am: &ActiveModel,
    i: usize,
)
    requires
        entity.wf(),
        am.wf(*entity),
        i <= entity.columns@.len(),
    ensures
        final(cols)@.len() >= old(cols)@.len(),
        final(cols)@.take(old(cols)@.len() as int) == old(cols)@,
        final(vals)@.len() >= old(vals)@.len(),
        final(vals)@.take(old(vals)@.len() as int) == old(vals)@,
        final(cols)@.len() - old(cols)@.len() == final(vals)@.len() - old(vals)@.len(),
        spec_dirty_from(
            final(cols)@.skip(old(cols)@.len() as int),
            final(vals)@.skip(old(vals)@.len() as int),
            *entity,
            *am,
            i as int,
        ),
    decreases entity.columns@.len() - i,
{
    if i < entity.columns.len() {
        match &am.values[i] {
            Option::None => {
                push_dirty(cols, vals, entity, am, i + 1);
            },
            Option::Some(v) => {
                cols.push(entity.columns[i].name.clone());
                vals.push(clone_value(v));
                let ghost midc = cols@;
                let ghost midv = vals@;
                push_dirty(cols, vals, entity, am, i + 1);
                proof {
                    let oldc = old(cols)@.len() as int;
                    let oldv = old(vals)@.len() as int;
                    assert(cols@.take(midc.len() as int) == midc);
                    assert(vals@.take(midv.len() as int) == midv);
                    assert(cols@.take(oldc) =~= old(cols)@);
                    assert(vals@.take(oldv) =~= old(vals)@);
                    assert(cols@[oldc] == cols@.take(midc.len() as int)[oldc]);
                    assert(vals@[oldv] == vals@.take(midv.len() as int)[oldv]);
                    assert(cols@.skip(oldc)[0] == cols@[oldc]);
                    assert(vals@.skip(oldv)[0] == vals@[oldv]);
                    assert(cols@.skip(oldc).skip(1) =~= cols@.skip(midc.len() as int));
                    assert(vals@.skip(oldv).skip(1) =~= vals@.skip(midv.len() as int));
                }
            },
        }
    } else {
        proof {
            assert(cols@.skip(old(cols)@.len() as int) =~= Seq::<String>::empty());
            assert(vals@.skip(old(vals)@.len() as int) =~= Seq::<Value>::empty());
        }
    }
}

/// Builds the INSERT for a staging value: the target table, and only the
/// explicitly-set fields, one column and one value each, in column
/// order.
pub fn insert(entity: &EntityDef, am: &ActiveModel) -> (r: InsertStatement)
    requires
        entity.wf(),
        am.wf(*entity),
    ensures
        r.table@ == entity.table@,
        r.columns@.len() == r.values@.len(),
        spec_dirty_from(r.columns@, r.values@, *entity, *am, 0),
{
    let mut columns: Vec<String> = Vec::new();
    let mut values: Vec<Value> = Vec::new();
    push_dirty(&mut columns, &mut values, entity, am, 0);
    proof {
        assert(columns@.skip(0) =~= columns@);
        assert(values@.skip(0) =~= values@);
    }
    let table = entity.table.clone();
    InsertStatement { table, columns, values }
}

/// Law: for a staging value with every field set (as
/// [`Model::into_active_model`] produces), the built INSERT carries
/// exactly the model: every column name in column order, and the model's
/// values. Together with the decode laws this is the library's share of
/// the insert round trip; that the backend returns the inserted row
/// unchanged is the connection layer's contract.
pub proof fn lemma_insert_carries_model(
    cols: Seq<String>,
    vals: Seq<Value>,
    entity: EntityDef,
    am: ActiveModel,
    m: Model,
    i: int,
)
    requires
        entity.wf(),
        0 <= i <= entity.columns@.len(),
        am.values@.len() == entity.columns@.len(),
        m.values@.len() == entity.columns@.len(),
        forall|k: int|
            0 <= k < entity.columns@.len() ==> (#[trigger] am.values@[k]) is Some
                && am.values@[k]->0@ == m.values@[k]@,
        spec_dirty_from(cols, vals, entity, am, i),
    ensures
        cols.len() == entity.columns@.len() - i,
        vals.len() == entity.columns@.len() - i,
        forall|j: int|
            0 <= j < cols.len() ==> (#[trigger] cols[j])@ == entity.columns@[i + j].name@,
        forall|j: int| 0 <= j < vals.len() ==> (#[trigger] vals[j])@ == m.values@[i + j]@,
    decreases entity.columns@.len() - i,
{
    if i < entity.columns@.len() {
        lemma_insert_carries_model(cols.skip(1), vals.skip(1), entity, am, m, i + 1);
        assert forall|j: int| 0 <= j < cols.len() implies (#[trigger] cols[j])@ == entity.columns@[
            i + j
        ].name@ by {
            if j > 0 {
                assert(cols.skip(1)[j - 1]@ == entity.columns@[i + 1 + (j - 1)].name@);
            }
        }
        assert forall|j: int| 0 <= j < vals.len() implies (#[trigger] vals[j])@ == m.values@[
            i + j
        ]@ by {
            if j > 0 {
                assert(vals.skip(1)[j - 1]@ == m.values@[i + 1 + (j - 1)]@);
            }
        }
    }
}

/// The low-level inserter: owns one INSERT and executes it exactly once.
#[derive(Debug)]
pub struct Inserter {
    pub query: InsertStatement,
}

impl Inserter {
    pub fn new(query: InsertStatement) -> (r: Self)
        ensures
            r.query == query,
    {
        Inserter { query }
    }

    /// Builds the owned statement for the connection's backend and
    /// executes it once, consuming the executor. A statement that names
    /// no column, or unequally many columns and values, is a build
    /// error — nothing is executed ([`insert`] cannot produce such a
    /// statement, but it is modeled for defensive completeness).
    /// Otherwise the outcome is the connection's: its generated key on
    /// success (mapped by [`insert_result_of`]), its error surfaced
    /// unchanged on failure.
    pub fn exec<C: ConnectionTrait>(self, db: &mut C) -> (r: Result<InsertResult, DbErr>)
        ensures
            self.query.columns@.len() == 0 || self.query.columns@.len()
                != self.query.values@.len() ==> r matches Result::Err(DbErr::Build(_)),
    {
        if self.query.columns.len() == 0 || self.query.columns.len() != self.query.values.len() {
            return Result::Err(DbErr::Build("the insert names no usable column".to_owned()));
        }
        let backend = db.get_database_backend();
        let stmt = self.query.build(backend);
        match db.execute(stmt) {
            Result::Ok(res) => Result::Ok(insert_result_of(&res)),
            Result::Err(e) => Result::Err(e),
        }
    }
}

} // verus!
