//! The result decoder: maps raw rows into typed models, validating
//! column presence and type compatibility. Missing or mismatched columns
//! are an error value, never a panic, and decoding never partially
//! mutates caller state on failure.

use vstd::prelude::*;
use vstd::string::StringExecFns;
use crate::value::{Value, ValueView, spec_value_fits, value_fits};
use crate::entity::{EntityDef, Model, ActiveModel, clone_value};
use crate::connection::{Row, DbErr, DecodeError, DecodeErrorView, ConnectionTrait};
use crate::query::{Select, SelectTwo};
use crate::insert::{spec_dirty_from, lemma_insert_carries_model};

verus! {

/// The first value whose column name (from position `i` on) equals
/// `name`; nothing when no column matches within the row's value count.
pub open spec fn spec_lookup(row: Row, name: Seq<char>, i: int) -> Option<ValueView>
    decreases row.columns@.len() - i,
{
    if i < 0 || i >= row.columns@.len() || i >= row.values@.len() {
        Option::None
    } else if row.columns@[i]@ == name {
        Option::Some(row.values@[i]@)
    } else {
        spec_lookup(row, name, i + 1)
    }
}

/// Decodes the entity's columns from position `i` on: each column's
/// (prefixed) name is looked up in the row and its value checked against
/// the column's type and nullability. The first failure decides the
/// error.
pub open spec fn spec_decode_from(entity: EntityDef, row: Row, prefix: Seq<char>, i: int) -> Result<
    Seq<ValueView>,
    DecodeErrorView,
>
    decreases entity.columns@.len() - i,
{
    if i < 0 || i >= entity.columns@.len() {
        Result::Ok(Seq::empty())
    } else {
        let name = prefix + entity.columns@[i].name@;
        match spec_lookup(row, name, 0) {
            Option::None => Result::Err(DecodeErrorView::Missing(name)),
            Option::Some(v) => if !spec_value_fits(
                v,
                entity.columns@[i].col_type,
                entity.columns@[i].nullable,
            ) {
                Result::Err(DecodeErrorView::TypeMismatch(name))
            } else {
                match spec_decode_from(entity, row, prefix, i + 1) {
                    Result::Ok(rest) => Result::Ok(seq![v] + rest),
                    Result::Err(e) => Result::Err(e),
                }
            },
        }
    }
}

/// Decodes one whole row against an entity, every expected column name
/// prefixed by `prefix`.
pub open spec fn spec_decode(entity: EntityDef, row: Row, prefix: Seq<char>) -> Result<
    Seq<ValueView>,
    DecodeErrorView,
> {
    spec_decode_from(entity, row, prefix, 0)
}

fn lookup_from(row: &Row, name: &String, i: usize) -> (r: Option<usize>)
    requires
        i <= row.columns@.len(),
    ensures
        match r {
            Option::Some(k) => i <= k < row.columns@.len() && k < row.values@.len()
                && row.columns@[k as int]@ == name@ && spec_lookup(*row, name@, i as int)
                == Option::Some(row.values@[k as int]@),
            Option::None => spec_lookup(*row, name@, i as int) is None,
        },
    decreases row.columns@.len() - i,
{
    if i < row.columns.len() && i < row.values.len() {
        if row.columns[i] == *name {
            Option::Some(i)
        } else {
            lookup_from(row, name, i + 1)
        }
    } else {
        Option::None
    }
}

fn decode_from(entity: &EntityDef, row: &Row, prefix: &str, i: usize, out: &mut Vec<Value>) -> (r:
    Result<(), DbErr>)
    requires
        entity.wf(),
        i <= entity.columns@.len(),
    ensures
        match spec_decode_from(*entity, *row, prefix@, i as int) {
            Result::Ok(vs) => r is Ok && final(out)@.map_values(|v: Value| v@) == old(
                out,
            )@.map_values(|v: Value| v@) + vs,
            Result::Err(e) => (r matches Result::Err(DbErr::Decode(de)) && de@ == e),
        },
    decreases entity.columns@.len() - i,
{
    if i < entity.columns.len() {
        let mut name = prefix.to_owned();
        name.append(entity.columns[i].name.as_str());
        match lookup_from(row, &name, 0) {
            Option::None => Result::Err(DbErr::Decode(DecodeError::Missing { column: name })),
            Option::Some(k) => {
                let v = clone_value(&row.values[k]);
                if !value_fits(&v, entity.columns[i].col_type, entity.columns[i].nullable) {
                    Result::Err(DbErr::Decode(DecodeError::TypeMismatch { column: name }))
                } else {
                    out.push(v);
                    let ghost midmap = out@.map_values(|x: Value| x@);
                    let r2 = decode_from(entity, row, prefix, i + 1, out);
                    proof {
                        assert(midmap =~= old(out)@.map_values(|x: Value| x@).push(v@));
                        if spec_decode_from(*entity, *row, prefix@, i as int + 1) is Ok {
                            let rest = spec_decode_from(
                                *entity,
                                *row,
                                prefix@,
                                i as int + 1,
                            )->Ok_0;
                            assert(out@.map_values(|x: Value| x@) == midmap + rest);
                            assert(midmap + rest =~= old(out)@.map_values(|x: Value| x@) + (seq![
                                v@,
                            ] + rest));
                        }
                    }
                    r2
                }
            },
        }
    } else {
        proof {
            assert(out@.map_values(|x: Value| x@) =~= old(out)@.map_values(|x: Value| x@)
                + Seq::<ValueView>::empty());
        }
        Result::Ok(())
    }
}

/// Law: a successful decode validates types — every decoded value fits
/// its column's declared type and nullability, one value per column from
/// position `i` on.
pub proof fn lemma_decode_fits(entity: EntityDef, row: Row, prefix: Seq<char>, i: int)
    requires
        0 <= i <= entity.columns@.len(),
        spec_decode_from(entity, row, prefix, i) is Ok,
    ensures
        ({
            let vs = spec_decode_from(entity, row, prefix, i)->Ok_0;
            &&& vs.len() == entity.columns@.len() - i
            &&& forall|j: int|
                0 <= j < vs.len() ==> spec_value_fits(
                    #[trigger] vs[j],
                    entity.columns@[i + j].col_type,
                    entity.columns@[i + j].nullable,
                )
        }),
    decreases entity.columns@.len() - i,
{
    if i < entity.columns@.len() {
        lemma_decode_fits(entity, row, prefix, i + 1);
        let vs = spec_decode_from(entity, row, prefix, i)->Ok_0;
        let rest = spec_decode_from(entity, row, prefix, i + 1)->Ok_0;
        assert forall|j: int| 0 <= j < vs.len() implies spec_value_fits(
            #[trigger] vs[j],
            entity.columns@[i + j].col_type,
            entity.columns@[i + j].nullable,
        ) by {
            if j > 0 {
                assert(spec_value_fits(
                    rest[j - 1],
                    entity.columns@[i + 1 + (j - 1)].col_type,
                    entity.columns@[i + 1 + (j - 1)].nullable,
                ));
            }
        }
    }
}

/// Decodes one row into a model of `entity`, each expected column name
/// prefixed by `prefix` (empty for an unaliased select). A decoded model
/// is well-formed for the entity.
pub fn decode_model(entity: &EntityDef, row: &Row, prefix: &str) -> (r: Result<Model, DbErr>)
    requires
        entity.wf(),
    ensures
        match spec_decode(*entity, *row, prefix@) {
            Result::Ok(vs) => (r matches Result::Ok(m) && m@ == vs && m.wf(*entity)),
            Result::Err(e) => (r matches Result::Err(DbErr::Decode(de)) && de@ == e),
        },
{
    let mut values: Vec<Value> = Vec::new();
    match decode_from(entity, row, prefix, 0, &mut values) {
        Result::Ok(_unit) => {
            proof {
                if spec_decode(*entity, *row, prefix@) is Ok {
                    assert(values@.map_values(|x: Value| x@) =~= Seq::<ValueView>::empty()
                        + spec_decode(*entity, *row, prefix@)->Ok_0);
                    lemma_decode_fits(*entity, *row, prefix@, 0);
                    let vs = spec_decode(*entity, *row, prefix@)->Ok_0;
                    assert(values@.map_values(|x: Value| x@).len() == values@.len());
                    assert forall|k: int| 0 <= k < values@.len() implies spec_value_fits(
                        (#[trigger] values@[k])@,
                        entity.columns@[k].col_type,
                        entity.columns@[k].nullable,
                    ) by {
                        assert(values@.map_values(|x: Value| x@)[k] == values@[k]@);
                        assert(spec_value_fits(
                            vs[0 + k],
                            entity.columns@[0 + k].col_type,
                            entity.columns@[0 + k].nullable,
                        ));
                    }
                }
            }
            Result::Ok(Model { values })
        },
        Result::Err(e) => Result::Err(e),
    }
}

proof fn lemma_lookup_hits(row: Row, entity: EntityDef, i: int, j: int)
    requires
        entity.wf(),
        row.columns@.len() == entity.columns@.len(),
        row.values@.len() == entity.columns@.len(),
        forall|k: int|
            0 <= k < entity.columns@.len() ==> (#[trigger] row.columns@[k])@ == entity.columns@[
                k
            ].name@,
        0 <= j <= i < entity.columns@.len(),
    ensures
        spec_lookup(row, entity.columns@[i].name@, j) == Option::Some(row.values@[i]@),
    decreases i - j,
{
    if j < i {
        assert(entity.columns@[j].name@ != entity.columns@[i].name@);
        lemma_lookup_hits(row, entity, i, j + 1);
    }
}

proof fn lemma_decode_roundtrip_from(entity: EntityDef, m: Model, row: Row, i: int)
    requires
        entity.wf(),
        m.wf(entity),
        row.columns@.len() == entity.columns@.len(),
        row.values@.len() == entity.columns@.len(),
        forall|k: int|
            0 <= k < entity.columns@.len() ==> (#[trigger] row.columns@[k])@ == entity.columns@[
                k
            ].name@,
        forall|k: int|
            0 <= k < entity.columns@.len() ==> (#[trigger] row.values@[k])@ == m.values@[k]@,
        0 <= i <= entity.columns@.len(),
    ensures
        spec_decode_from(entity, row, Seq::empty(), i) == Result::<
            Seq<ValueView>,
            DecodeErrorView,
        >::Ok(m@.skip(i)),
    decreases entity.columns@.len() - i,
{
    if i == entity.columns@.len() {
        assert(m@.skip(i) =~= Seq::<ValueView>::empty());
    } else {
        assert(Seq::empty() + entity.columns@[i].name@ =~= entity.columns@[i].name@);
        lemma_lookup_hits(row, entity, i, 0);
        lemma_decode_roundtrip_from(entity, m, row, i + 1);
        assert(seq![row.values@[i]@] + m@.skip(i + 1) =~= m@.skip(i));
    }
}

/// Law: a row laid out exactly as the entity — its column names in
/// column order, carrying a well-formed model's values — decodes back to
/// precisely that model's values, with no prefix. This is the decode
/// half of the insert round trip; the insert half is
/// [`crate::insert::lemma_insert_carries_model`], and that the backend
/// hands the inserted row back unchanged is the connection layer's
/// contract.
pub proof fn lemma_decode_roundtrip(entity: EntityDef, m: Model, row: Row)
    requires
        entity.wf(),
        m.wf(entity),
        row.columns@.len() == entity.columns@.len(),
        row.values@.len() == entity.columns@.len(),
        forall|k: int|
            0 <= k < entity.columns@.len() ==> (#[trigger] row.columns@[k])@ == entity.columns@[
                k
            ].name@,
        forall|k: int|
            0 <= k < entity.columns@.len() ==> (#[trigger] row.values@[k])@ == m.values@[k]@,
    ensures
        spec_decode(entity, row, Seq::empty()) == Result::<
            Seq<ValueView>,
            DecodeErrorView,
        >::Ok(m@),
{
    lemma_decode_roundtrip_from(entity, m, row, 0);
    assert(m@.skip(0) =~= m@);
}

/// Law: inserting a model and decoding the row fetched back for it is
/// the identity, for every field type the value space carries (NULL,
/// booleans, integers, text, blobs). Here `am` is the model with every
/// field set (as [`crate::entity::Model::into_active_model`] produces),
/// `cols` and `vals` are what the built INSERT carries
/// ([`crate::insert::insert`]'s contract), and the fetched `row` is
/// assumed to hold exactly those columns and values — the backend's
/// fidelity between the insert and the fetch, which lies outside the
/// library and is the one assumption this law rests on.
pub proof fn lemma_insert_roundtrip(
    entity: EntityDef,
    m: Model,
    am: ActiveModel,
    cols: Seq<String>,
    vals: Seq<Value>,
    row: Row,
)
    requires
        entity.wf(),
        m.wf(entity),
        am.values@.len() == entity.columns@.len(),
        forall|k: int|
            0 <= k < entity.columns@.len() ==> (#[trigger] am.values@[k]) is Some
                && am.values@[k]->0@ == m.values@[k]@,
        spec_dirty_from(cols, vals, entity, am, 0),
        row.columns@.len() == cols.len(),
        forall|k: int| 0 <= k < cols.len() ==> (#[trigger] row.columns@[k])@ == cols[k]@,
        row.values@.len() == vals.len(),
        forall|k: int| 0 <= k < vals.len() ==> (#[trigger] row.values@[k])@ == vals[k]@,
    ensures
        spec_decode(entity, row, Seq::empty()) == Result::<
            Seq<ValueView>,
            DecodeErrorView,
        >::Ok(m@),
{
    lemma_insert_carries_model(cols, vals, entity, am, m, 0);
    assert forall|k: int| 0 <= k < entity.columns@.len() implies (#[trigger] row.columns@[k])@
        == entity.columns@[k].name@ by {
        assert(cols[k]@ == entity.columns@[0 + k].name@);
    }
    assert forall|k: int| 0 <= k < entity.columns@.len() implies (#[trigger] row.values@[k])@
        == m.values@[k]@ by {
        assert(vals[k]@ == m.values@[0 + k]@);
    }
    lemma_decode_roundtrip(entity, m, row);
}

/// Whether every primary-key column of `right` (under `prefix`) is
/// present and NULL, from key position `k` on: the mark of an unmatched
/// joined side under a LEFT JOIN.
pub open spec fn spec_right_absent_from(
    right: EntityDef,
    row: Row,
    prefix: Seq<char>,
    k: int,
) -> bool
    decreases right.primary_key@.len() - k,
{
    if k < 0 || k >= right.primary_key@.len() {
        true
    } else {
        &&& spec_lookup(
            row,
            prefix + right.columns@[right.primary_key@[k] as int].name@,
            0,
        ) == Option::Some(ValueView::Null)
        &&& spec_right_absent_from(right, row, prefix, k + 1)
    }
}

fn right_absent_from(right: &EntityDef, row: &Row, prefix: &str, k: usize) -> (r: bool)
    requires
        right.wf(),
        k <= right.primary_key@.len(),
    ensures
        r == spec_right_absent_from(*right, *row, prefix@, k as int),
    decreases right.primary_key@.len() - k,
{
    if k < right.primary_key.len() {
        let mut name = prefix.to_owned();
        name.append(right.columns[right.primary_key[k]].name.as_str());
        match lookup_from(row, &name, 0) {
            Option::None => false,
            Option::Some(idx) => {
                let is_null = match &row.values[idx] {
                    Value::Null => true,
                    _ => false,
                };
                if is_null {
                    right_absent_from(right, row, prefix, k + 1)
                } else {
                    false
                }
            },
        }
    } else {
        true
    }
}

/// Decodes one row of a pair select: the left entity from its `A_`
/// columns, and the right entity from its `B_` columns — absent (every
/// `B_` key column NULL, the unmatched side of the LEFT JOIN) or
/// decoded.
pub open spec fn spec_decode_pair(left: EntityDef, right: EntityDef, row: Row) -> Result<
    (Seq<ValueView>, Option<Seq<ValueView>>),
    DecodeErrorView,
> {
    match spec_decode(left, row, seq!['A', '_']) {
        Result::Err(e) => Result::Err(e),
        Result::Ok(lvs) => if spec_right_absent_from(right, row, seq!['B', '_'], 0) {
            Result::Ok((lvs, Option::None))
        } else {
            match spec_decode(right, row, seq!['B', '_']) {
                Result::Err(e) => Result::Err(e),
                Result::Ok(rvs) => Result::Ok((lvs, Option::Some(rvs))),
            }
        },
    }
}

/// Decodes one row of a pair select into the left model and the
/// optional right model; both decoded sides are well-formed for their
/// entities.
pub fn decode_pair(left: &EntityDef, right: &EntityDef, row: &Row) -> (r: Result<
    (Model, Option<Model>),
    DbErr,
>)
    requires
        left.wf(),
        right.wf(),
    ensures
        match spec_decode_pair(*left, *right, *row) {
            Result::Ok(p) => (r matches Result::Ok(q) && q.0@ == p.0 && q.0.wf(*left) && (
            match p.1 {
                Option::None => q.1 is None,
                Option::Some(rvs) => q.1 is Some && q.1->0@ == rvs && q.1->0.wf(*right),
            })),
            Result::Err(e) => (r matches Result::Err(DbErr::Decode(de)) && de@ == e),
        },
{
    proof {
        reveal_strlit("A_");
        reveal_strlit("B_");
        assert("A_"@ =~= seq!['A', '_']);
        assert("B_"@ =~= seq!['B', '_']);
    }
    match decode_model(left, row, "A_") {
        Result::Err(e) => Result::Err(e),
        Result::Ok(lm) => {
            if right_absent_from(right, row, "B_", 0) {
                Result::Ok((lm, Option::None))
            } else {
                match decode_model(right, row, "B_") {
                    Result::Err(e) => Result::Err(e),
                    Result::Ok(rm) => Result::Ok((lm, Option::Some(rm))),
                }
            }
        },
    }
}

/// Decodes a whole row set in order: the models come back one per row,
/// in the rows' order, or the first failing row's error.
pub fn decode_rows(entity: &EntityDef, rows: &Vec<Row>) -> (r: Result<Vec<Model>, DbErr>)
    requires
        entity.wf(),
    ensures
        match r {
            Result::Ok(ms) => ms@.len() == rows@.len() && forall|i: int|
                0 <= i < rows@.len() ==> spec_decode(*entity, #[trigger] rows@[i], Seq::empty())
                    is Ok && ms@[i]@ == spec_decode(*entity, rows@[i], Seq::empty())->Ok_0
                    && ms@[i].wf(*entity),
            Result::Err(e) => (e matches DbErr::Decode(de) && exists|i: int|
                0 <= i < rows@.len() && (spec_decode(*entity, #[trigger] rows@[i], Seq::empty())
                    matches Result::Err(ev) && de@ == ev)),
        },
{
    proof {
        reveal_strlit("");
        assert(""@ =~= Seq::<char>::empty());
    }
    let mut ms: Vec<Model> = Vec::new();
    let n = rows.len();
    let mut i: usize = 0;
    while i < n
        invariant
            i <= n,
            n == rows@.len(),
            ms@.len() == i,
            ""@ == Seq::<char>::empty(),
            entity.wf(),
            forall|j: int|
                0 <= j < i as int ==> spec_decode(*entity, #[trigger] rows@[j], Seq::empty())
                    is Ok && ms@[j]@ == spec_decode(*entity, rows@[j], Seq::empty())->Ok_0
                    && ms@[j].wf(*entity),
        decreases n - i,
    {
        match decode_model(entity, &rows[i], "") {
            Result::Ok(m) => {
                ms.push(m);
            },
            Result::Err(e) => {
                proof {
                    assert(spec_decode(*entity, rows@[i as int], Seq::empty()) matches
                        Result::Err(ev));
                }
                return Result::Err(e);
            },
        }
        i = i + 1;
    }
    Result::Ok(ms)
}

/// Decodes a whole row set of a pair select in order: one pair per row,
/// in the rows' order (an ORDER BY's order is the rows' order), with an
/// absent right side where the LEFT JOIN found no match.
pub fn decode_pairs(left: &EntityDef, right: &EntityDef, rows: &Vec<Row>) -> (r: Result<
    Vec<(Model, Option<Model>)>,
    DbErr,
>)
    requires
        left.wf(),
        right.wf(),
    ensures
        match r {
            Result::Ok(ps) => ps@.len() == rows@.len() && forall|i: int|
                0 <= i < rows@.len() ==> spec_decode_pair(*left, *right, #[trigger] rows@[i])
                    is Ok && ps@[i].0@ == spec_decode_pair(*left, *right, rows@[i])->Ok_0.0
                    && ps@[i].0.wf(*left) && (
                match spec_decode_pair(*left, *right, rows@[i])->Ok_0.1 {
                    Option::None => ps@[i].1 is None,
                    Option::Some(rvs) => ps@[i].1 is Some && ps@[i].1->0@ == rvs && ps@[
                        i
                    ].1->0.wf(*right),
                }),
            Result::Err(e) => (e matches DbErr::Decode(de) && exists|i: int|
                0 <= i < rows@.len() && (spec_decode_pair(*left, *right, #[trigger] rows@[i])
                    matches Result::Err(ev) && de@ == ev)),
        },
{
    let mut ps: Vec<(Model, Option<Model>)> = Vec::new();
    let n = rows.len();
    let mut i: usize = 0;
    while i < n
        invariant
            i <= n,
            n == rows@.len(),
            ps@.len() == i,
            left.wf(),
            right.wf(),
            forall|j: int|
                0 <= j < i as int ==> spec_decode_pair(*left, *right, #[trigger] rows@[j]) is Ok
                    && ps@[j].0@ == spec_decode_pair(*left, *right, rows@[j])->Ok_0.0 && ps@[
                    j
                ].0.wf(*left) && (
                match spec_decode_pair(*left, *right, rows@[j])->Ok_0.1 {
                    Option::None => ps@[j].1 is None,
                    Option::Some(rvs) => ps@[j].1 is Some && ps@[j].1->0@ == rvs && ps@[
                        j
                    ].1->0.wf(*right),
                }),
        decreases n - i,
    {
        match decode_pair(left, right, &rows[i]) {
            Result::Ok(p) => {
                ps.push(p);
            },
            Result::Err(e) => {
                return Result::Err(e);
            },
        }
        i = i + 1;
    }
    Result::Ok(ps)
}

impl Select {
    /// Builds the select for the connection's backend, runs it, and
    /// decodes every returned row in order. The row set itself is the
    /// connection's to produce; [`decode_rows`] states exactly how the
    /// rows decode, and whatever came back, every model of a successful
    /// result is well-formed for the entity.
    pub fn all<C: ConnectionTrait>(self, db: &mut C) -> (r: Result<Vec<Model>, DbErr>)
        requires
            self.entity.wf(),
        ensures
            r matches Result::Ok(ms) ==> forall|i: int|
                0 <= i < ms@.len() ==> (#[trigger] ms@[i]).wf(self.entity),
    {
        let backend = db.get_database_backend();
        let stmt = self.build(backend);
        match db.query_all(stmt) {
            Result::Err(e) => Result::Err(e),
            Result::Ok(rows) => {
                let decoded = decode_rows(&self.entity, &rows);
                proof {
                    if decoded is Ok {
                        let ms = decoded->Ok_0;
                        assert forall|i: int| 0 <= i < ms@.len() implies (#[trigger] ms@[
                            i
                        ]).wf(self.entity) by {
                            assert(spec_decode(self.entity, rows@[i], Seq::empty()) is Ok);
                        }
                    }
                }
                decoded
            },
        }
    }

    /// Builds the select, runs it, and decodes the single returned row,
    /// if any; whatever came back, a decoded model is well-formed for
    /// the entity.
    pub fn one<C: ConnectionTrait>(self, db: &mut C) -> (r: Result<Option<Model>, DbErr>)
        requires
            self.entity.wf(),
        ensures
            r matches Result::Ok(Option::Some(m)) ==> m.wf(self.entity),
    {
        let backend = db.get_database_backend();
        let stmt = self.build(backend);
        match db.query_one(stmt) {
            Result::Err(e) => Result::Err(e),
            Result::Ok(Option::None) => Result::Ok(Option::None),
            Result::Ok(Option::Some(row)) => {
                proof {
                    reveal_strlit("");
                }
                match decode_model(&self.entity, &row, "") {
                    Result::Err(e) => Result::Err(e),
                    Result::Ok(m) => Result::Ok(Option::Some(m)),
                }
            },
        }
    }
}

impl SelectTwo {
    /// Builds the pair select for the connection's backend, runs it, and
    /// decodes every returned row in order into a pair; an unmatched
    /// left-side row comes back paired with an absent right side, and
    /// whatever came back, both sides of every pair of a successful
    /// result are well-formed for their entities.
    pub fn all<C: ConnectionTrait>(self, db: &mut C) -> (r: Result<
        Vec<(Model, Option<Model>)>,
        DbErr,
    >)
        requires
            self.left.wf(),
            self.right.wf(),
        ensures
            r matches Result::Ok(ps) ==> forall|i: int|
                0 <= i < ps@.len() ==> {
                    &&& (#[trigger] ps@[i]).0.wf(self.left)
                    &&& (ps@[i].1 matches Option::Some(m) ==> m.wf(self.right))
                },
    {
        let backend = db.get_database_backend();
        let stmt = self.build(backend);
        match db.query_all(stmt) {
            Result::Err(e) => Result::Err(e),
            Result::Ok(rows) => {
                let decoded = decode_pairs(&self.left, &self.right, &rows);
                proof {
                    if decoded is Ok {
                        let ps = decoded->Ok_0;
                        assert forall|i: int| 0 <= i < ps@.len() implies {
                            &&& (#[trigger] ps@[i]).0.wf(self.left)
                            &&& (ps@[i].1 matches Option::Some(m) ==> m.wf(self.right))
                        } by {
                            assert(spec_decode_pair(self.left, self.right, rows@[i]) is Ok);
                        }
                    }
                }
                decoded
            },
        }
    }
}

} // verus!
