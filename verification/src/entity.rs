//! Entity metadata: tables, columns, primary keys, soft-delete policies,
//! relations and multi-hop linked paths, together with row snapshots
//! ([`Model`]) and staging values ([`ActiveModel`]).
//!
//! Metadata is registered explicitly as plain values and treated as
//! immutable thereafter; every statement-building function takes it by
//! reference and states its contract over these values.

use vstd::prelude::*;
use vstd::slice::slice_to_vec;
use crate::value::{Value, ColumnType, spec_value_fits};

verus! {

/// One column of an entity: its name, SQL type mapping and nullability.
#[derive(Debug)]
pub struct ColumnDef {
    pub name: String,
    pub col_type: ColumnType,
    pub nullable: bool,
}

/// An entity's soft-delete policy: the designated column, and the
/// sentinel value an `UPDATE` writes in place of a physical `DELETE`.
#[derive(Debug)]
pub struct SoftDeletePolicy {
    pub column: usize,
    pub deleted_value: Value,
}

/// A named relation schema: ordered columns, a designated primary-key
/// subset, and an optional soft-delete policy.
#[derive(Debug)]
pub struct EntityDef {
    pub table: String,
    pub columns: Vec<ColumnDef>,
    pub primary_key: Vec<usize>,
    pub soft_delete: Option<SoftDeletePolicy>,
}

impl EntityDef {
    /// Well-formedness: at least one column, a non-empty primary key of
    /// valid column indices, pairwise distinct column names, and a
    /// soft-delete policy (if any) naming a nullable column with a
    /// non-null sentinel of the column's type.
    pub open spec fn wf(self) -> bool {
        &&& 0 < self.columns@.len()
        &&& 0 < self.primary_key@.len()
        &&& forall|i: int|
            0 <= i < self.primary_key@.len() ==> self.primary_key@[i] < self.columns@.len()
        &&& forall|i: int, j: int|
            0 <= i < j < self.columns@.len() ==> self.columns@[i].name@ != self.columns@[j].name@
        &&& match self.soft_delete {
            Option::Some(p) => {
                &&& p.column < self.columns@.len()
                &&& self.columns@[p.column as int].nullable
                &&& !(p.deleted_value@ is Null)
                &&& spec_value_fits(
                    p.deleted_value@,
                    self.columns@[p.column as int].col_type,
                    self.columns@[p.column as int].nullable,
                )
            },
            Option::None => true,
        }
    }

    /// The name of the soft-delete column, where the entity has one.
    pub open spec fn spec_soft_delete_name(self) -> Seq<char>
        recommends
            self.soft_delete is Some,
            self.wf(),
    {
        self.columns@[self.soft_delete->0.column as int].name@
    }
}

/// How a relation edge is tagged on the owning entity.
#[derive(Debug, Clone, Copy, PartialEq, Eq, Structural)]
pub enum RelationKind {
    /// The owning entity holds the foreign key.
    BelongsTo,
    /// The related entity holds the foreign key.
    HasMany,
}

/// A directed relation edge between two entities, carrying the
/// foreign-key column mapping `from_table.from_col = to_table.to_col`.
#[derive(Debug)]
pub struct RelationDef {
    pub kind: RelationKind,
    pub from_table: String,
    pub from_col: String,
    pub to_table: String,
    pub to_col: String,
}

/// An ordered multi-hop traversal of relation edges, with the entity
/// metadata of every node along the path: `rels[i]` goes from
/// `entities[i]` to `entities[i + 1]`.
#[derive(Debug)]
pub struct Linked {
    pub entities: Vec<EntityDef>,
    pub rels: Vec<RelationDef>,
}

impl Linked {
    /// Well-formedness: at least one hop, one entity per node, every
    /// entity well-formed, and each edge's endpoint tables matching the
    /// entities at its ends.
    pub open spec fn wf(self) -> bool {
        &&& 0 < self.rels@.len()
        &&& self.entities@.len() == self.rels@.len() + 1
        &&& forall|i: int| 0 <= i < self.entities@.len() ==> (#[trigger] self.entities@[i]).wf()
        &&& forall|i: int|
            0 <= i < self.rels@.len() ==> (#[trigger] self.rels@[i]).from_table@
                == self.entities@[i].table@
        &&& forall|i: int|
            0 <= i < self.rels@.len() ==> (#[trigger] self.rels@[i]).to_table@ == self.entities@[
                i + 1
            ].table@
    }
}

/// An immutable snapshot of one row's typed values, positionally aligned
/// with the owning entity's column list.
#[derive(Debug)]
pub struct Model {
    pub values: Vec<Value>,
}

impl View for Model {
    type V = Seq<crate::value::ValueView>;

    /// The mathematical value of a model: its values' views, in column
    /// order.
    open spec fn view(&self) -> Seq<crate::value::ValueView> {
        self.values@.map_values(|v: Value| v@)
    }
}

impl Model {
    /// Whether the snapshot fits the entity: one value per column, each
    /// acceptable for its column's type and nullability.
    pub open spec fn wf(self, entity: EntityDef) -> bool {
        &&& self.values@.len() == entity.columns@.len()
        &&& forall|i: int|
            0 <= i < self.values@.len() ==> spec_value_fits(
                (#[trigger] self.values@[i])@,
                entity.columns@[i].col_type,
                entity.columns@[i].nullable,
            )
    }

    /// Turns the snapshot into a staging value with every field set.
    pub fn into_active_model(&self) -> (r: ActiveModel)
        ensures
            r.values@.len() == self.values@.len(),
            forall|i: int|
                0 <= i < self.values@.len() ==> (#[trigger] r.values@[i]) is Some
                    && r.values@[i]->0@ == self.values@[i]@,
    {
        let mut values: Vec<Option<Value>> = Vec::new();
        let n = self.values.len();
        let mut i: usize = 0;
        while i < n
            invariant
                i <= n,
                n == self.values@.len(),
                values@.len() == i,
                forall|j: int|
                    0 <= j < i as int ==> (#[trigger] values@[j]) is Some && values@[j]->0@
                        == self.values@[j]@,
            decreases n - i,
        {
            let v = clone_value(&self.values[i]);
            values.push(Option::Some(v));
            i = i + 1;
        }
        ActiveModel { values }
    }
}

/// A mutable staging structure tracking which fields have been
/// explicitly set; unset fields are left out of generated insert and
/// update column lists.
#[derive(Debug)]
pub struct ActiveModel {
    pub values: Vec<Option<Value>>,
}

impl ActiveModel {
    /// Whether the staging value fits the entity: one slot per column,
    /// each set value acceptable for its column.
    pub open spec fn wf(self, entity: EntityDef) -> bool {
        &&& self.values@.len() == entity.columns@.len()
        &&& forall|i: int|
            0 <= i < self.values@.len() ==> match #[trigger] self.values@[i] {
                Option::Some(v) => spec_value_fits(
                    v@,
                    entity.columns@[i].col_type,
                    entity.columns@[i].nullable,
                ),
                Option::None => true,
            }
    }
}

impl PartialEq for Model {
    /// Equality of the mathematical values: the same value sequence.
    fn eq(&self, other: &Model) -> (r: bool) {
        let n = self.values.len();
        if n != other.values.len() {
            proof {
                if self@ == other@ {
                    assert(self@.len() == other@.len());
                }
            }
            return false;
        }
        let mut i: usize = 0;
        while i < n
            invariant
                i <= n,
                n == self.values@.len(),
                n == other.values@.len(),
                forall|j: int| 0 <= j < i as int ==> self.values@[j]@ == other.values@[j]@,
            decreases n - i,
        {
            if !(self.values[i] == other.values[i]) {
                proof {
                    if self@ == other@ {
                        assert(self@[i as int] == other@[i as int]);
                    }
                }
                return false;
            }
            i = i + 1;
        }
        proof {
            assert(self@ =~= other@);
        }
        true
    }
}

impl vstd::std_specs::cmp::PartialEqSpecImpl for Model {
    open spec fn obeys_eq_spec() -> bool {
        true
    }

    open spec fn eq_spec(&self, other: &Model) -> bool {
        self@ == other@
    }
}

/// A copy of a value, equal to the original in every contract.
pub fn clone_value(v: &Value) -> (r: Value)
    ensures
        r@ == v@,
{
    match v {
        Value::Null => Value::Null,
        Value::Bool(b) => Value::Bool(*b),
        Value::Int(n) => Value::Int(*n),
        Value::Text(s) => {
            let t = s.clone();
            Value::Text(t)
        },
        Value::Bytes(bs) => Value::Bytes(slice_to_vec(bs.as_slice())),
    }
}

} // verus!
