//! The relation resolver: entry points that expand an entity and a
//! relation or multi-hop linked path into a join-augmented select, with
//! relation-scoped soft-delete predicates merged into the WHERE clause
//! automatically.

use vstd::prelude::*;
use vstd::string::StringExecFns;
use crate::value::spec_dec_nat;
use crate::value::push_u64_dec;
use crate::entity::{EntityDef, ColumnDef, RelationDef, Linked, Model, clone_value};
use crate::statement::{
    DbBackend, Statement, ColRef, Cond, JoinType, Join, SelectExpr, OrderDir, OrderExpr,
    SelectStatement, StatementBuilder, spec_render_select,
};
use crate::render::render_select;

verus! {

/// A chainable select over one entity: the entity's metadata and the
/// logical statement grown so far.
#[derive(Debug)]
pub struct Select {
    pub entity: EntityDef,
    pub query: SelectStatement,
}

/// A chainable select over a pair of entities (the base and the target
/// of a linked path), whose rows decode into a pair.
#[derive(Debug)]
pub struct SelectTwo {
    pub left: EntityDef,
    pub right: EntityDef,
    pub query: SelectStatement,
}

/// The select list holds exactly `cols`, each qualified by `qual`, with
/// no aliases, starting at position `start`.
pub open spec fn spec_selects_all(
    es: Seq<SelectExpr>,
    start: int,
    qual: Seq<char>,
    cols: Seq<ColumnDef>,
) -> bool {
    &&& es.len() == start + cols.len()
    &&& forall|i: int|
        0 <= i < cols.len() ==> {
            &&& (#[trigger] es[start + i]).col.table@ == qual
            &&& es[start + i].col.column@ == cols[i].name@
            &&& es[start + i].alias is None
        }
}

/// The select list holds exactly `cols` from position `start` on, each
/// qualified by `qual` and aliased `prefix` + column name.
pub open spec fn spec_selects_prefixed(
    es: Seq<SelectExpr>,
    start: int,
    qual: Seq<char>,
    cols: Seq<ColumnDef>,
    prefix: Seq<char>,
) -> bool {
    &&& es.len() >= start + cols.len()
    &&& forall|i: int|
        0 <= i < cols.len() ==> {
            &&& (#[trigger] es[start + i]).col.table@ == qual
            &&& es[start + i].col.column@ == cols[i].name@
            &&& es[start + i].alias is Some
            &&& es[start + i].alias->0@ == prefix + cols[i].name@
        }
}

/// `c` is the "not soft-deleted" predicate of `entity`, qualified by
/// `qual` (the entity's table name, or its join alias).
pub open spec fn spec_is_sd_cond_at(c: Cond, qual: Seq<char>, entity: EntityDef) -> bool {
    &&& c matches Cond::ColIsNull(cr)
    &&& c->ColIsNull_0.table@ == qual
    &&& c->ColIsNull_0.column@ == entity.spec_soft_delete_name()
}

/// `cs` is exactly the primary-key conditions of `model` against
/// `entity`, qualified by `qual`: one `column = value` per key column, in
/// key order.
pub open spec fn spec_pk_conds(
    cs: Seq<Cond>,
    entity: EntityDef,
    qual: Seq<char>,
    model: Model,
) -> bool {
    &&& cs.len() == entity.primary_key@.len()
    &&& forall|i: int|
        0 <= i < cs.len() ==> {
            &&& (#[trigger] cs[i]) matches Cond::ColEq(cr, v)
            &&& cs[i]->ColEq_0.table@ == qual
            &&& cs[i]->ColEq_0.column@ == entity.columns@[entity.primary_key@[i] as int].name@
            &&& cs[i]->ColEq_1@ == model.values@[entity.primary_key@[i] as int]@
        }
}

/// Law: the "not soft-deleted" conjunct a relation resolver places first
/// in a select's WHERE list stays there whatever conjuncts callers
/// append afterwards — [`find_related`] puts the related entity's
/// predicate at the head, [`Select::filter`] only ever appends, so the
/// predicate is a conjunct of every derived query.
pub proof fn lemma_sd_conjunct_survives_filters(
    conds: Seq<Cond>,
    appended: Seq<Cond>,
    qual: Seq<char>,
    entity: EntityDef,
)
    requires
        0 < conds.len(),
        spec_is_sd_cond_at(conds[0], qual, entity),
    ensures
        spec_is_sd_cond_at((conds + appended)[0], qual, entity),
        exists|i: int|
            0 <= i < (conds + appended).len() && spec_is_sd_cond_at(
                (conds + appended)[i],
                qual,
                entity,
            ),
{
    assert((conds + appended)[0] == conds[0]);
}

/// The synthetic alias of the `i`-th aliased join of one statement:
/// `r0`, `r1`, ... — the alias counter is scoped to one build, starting
/// fresh at `r0` for every statement.
pub open spec fn spec_join_alias(i: int) -> Seq<char>
    recommends
        0 <= i,
{
    seq!['r'] + spec_dec_nat(i as nat)
}

/// The alias string `r0`, `r1`, ... for the `i`-th aliased join.
pub fn join_alias(i: usize) -> (s: String)
    ensures
        s@ == spec_join_alias(i as int),
{
    proof {
        reveal_strlit("r");
        assert("r"@ =~= seq!['r']);
    }
    let mut s = String::from_str("r");
    push_u64_dec(&mut s, i as u64);
    s
}

fn push_select_exprs(es: &mut Vec<SelectExpr>, qual: &str, cols: &Vec<ColumnDef>, i: usize)
    requires
        i <= cols@.len(),
    ensures
        final(es)@.len() == old(es)@.len() + (cols@.len() - i),
        final(es)@.take(old(es)@.len() as int) == old(es)@,
        forall|j: int|
            0 <= j < cols@.len() - i ==> {
                &&& (#[trigger] final(es)@[old(es)@.len() + j]).col.table@ == qual@
                &&& final(es)@[old(es)@.len() + j].col.column@ == cols@[i + j].name@
                &&& final(es)@[old(es)@.len() + j].alias is None
            },
    decreases cols@.len() - i,
{
    if i < cols.len() {
        let table = qual.to_owned();
        let column = cols[i].name.clone();
        es.push(SelectExpr { col: ColRef { table, column }, alias: Option::None });
        let ghost mid = es@;
        push_select_exprs(es, qual, cols, i + 1);
        proof {
            let oldlen = old(es)@.len() as int;
            assert(es@.take(mid.len() as int) == mid);
            assert(es@.take(oldlen) =~= old(es)@);
            assert forall|j: int| 0 <= j < cols@.len() - i implies {
                &&& (#[trigger] es@[oldlen + j]).col.table@ == qual@
                &&& es@[oldlen + j].col.column@ == cols@[i + j].name@
                &&& es@[oldlen + j].alias is None
            } by {
                if j == 0 {
                    assert(es@[oldlen] == es@.take(mid.len() as int)[oldlen]);
                    assert(es@[oldlen] == mid[oldlen]);
                } else {
                    assert((es@[mid.len() + (j - 1)]).col.table@ == qual@);
                    assert(oldlen + j == mid.len() + (j - 1));
                }
            }
        }
    }
}

fn push_select_exprs_prefixed(
    es: &mut Vec<SelectExpr>,
    qual: &str,
    cols: &Vec<ColumnDef>,
    prefix: &str,
    i: usize,
)
    requires
        i <= cols@.len(),
    ensures
        final(es)@.len() == old(es)@.len() + (cols@.len() - i),
        final(es)@.take(old(es)@.len() as int) == old(es)@,
        forall|j: int|
            0 <= j < cols@.len() - i ==> {
                &&& (#[trigger] final(es)@[old(es)@.len() + j]).col.table@ == qual@
                &&& final(es)@[old(es)@.len() + j].col.column@ == cols@[i + j].name@
                &&& final(es)@[old(es)@.len() + j].alias is Some
                &&& final(es)@[old(es)@.len() + j].alias->0@ == prefix@ + cols@[i + j].name@
            },
    decreases cols@.len() - i,
{
    if i < cols.len() {
        let table = qual.to_owned();
        let column = cols[i].name.clone();
        let mut alias = prefix.to_owned();
        alias.append(cols[i].name.as_str());
        es.push(SelectExpr { col: ColRef { table, column }, alias: Option::Some(alias) });
        let ghost mid = es@;
        push_select_exprs_prefixed(es, qual, cols, prefix, i + 1);
        proof {
            let oldlen = old(es)@.len() as int;
            assert(es@.take(mid.len() as int) == mid);
            assert(es@.take(oldlen) =~= old(es)@);
            assert forall|j: int| 0 <= j < cols@.len() - i implies {
                &&& (#[trigger] es@[oldlen + j]).col.table@ == qual@
                &&& es@[oldlen + j].col.column@ == cols@[i + j].name@
                &&& es@[oldlen + j].alias is Some
                &&& es@[oldlen + j].alias->0@ == prefix@ + cols@[i + j].name@
            } by {
                if j == 0 {
                    assert(es@[oldlen] == es@.take(mid.len() as int)[oldlen]);
                    assert(es@[oldlen] == mid[oldlen]);
                } else {
                    assert((es@[mid.len() + (j - 1)]).col.table@ == qual@);
                    assert(oldlen + j == mid.len() + (j - 1));
                }
            }
        }
    }
}

/// Pushes the entity's "not soft-deleted" predicate, qualified by
/// `qual`, where the entity has a soft-delete policy; otherwise pushes
/// nothing.
fn push_sd_cond(cs: &mut Vec<Cond>, entity: &EntityDef, qual: &str)
    requires
        entity.wf(),
    ensures
        entity.soft_delete is None ==> final(cs)@ == old(cs)@,
        entity.soft_delete is Some ==> {
            &&& final(cs)@.len() == old(cs)@.len() + 1
            &&& final(cs)@.take(old(cs)@.len() as int) == old(cs)@
            &&& spec_is_sd_cond_at(final(cs)@[old(cs)@.len() as int], qual@, *entity)
        },
{
    match &entity.soft_delete {
        Option::None => {},
        Option::Some(p) => {
            let table = qual.to_owned();
            let column = entity.columns[p.column].name.clone();
            cs.push(Cond::ColIsNull(ColRef { table, column }));
            proof {
                assert(final(cs)@.take(old(cs)@.len() as int) =~= old(cs)@);
            }
        },
    }
}

/// Pushes the primary-key conditions of `model` against `entity`,
/// qualified by `qual`, in key order.
pub(crate) fn push_pk_conds(cs: &mut Vec<Cond>, entity: &EntityDef, qual: &str, model: &Model, i: usize)
    requires
        entity.wf(),
        model.wf(*entity),
        i <= entity.primary_key@.len(),
    ensures
        final(cs)@.len() == old(cs)@.len() + (entity.primary_key@.len() - i),
        final(cs)@.take(old(cs)@.len() as int) == old(cs)@,
        forall|j: int|
            0 <= j < entity.primary_key@.len() - i ==> {
                &&& (#[trigger] final(cs)@[old(cs)@.len() + j]) matches Cond::ColEq(cr, v)
                &&& final(cs)@[old(cs)@.len() + j]->ColEq_0.table@ == qual@
                &&& final(cs)@[old(cs)@.len() + j]->ColEq_0.column@ == entity.columns@[
                    entity.primary_key@[i + j] as int
                ].name@
                &&& final(cs)@[old(cs)@.len() + j]->ColEq_1@ == model.values@[
                    entity.primary_key@[i + j] as int
                ]@
            },
    decreases entity.primary_key@.len() - i,
{
    if i < entity.primary_key.len() {
        let k = entity.primary_key[i];
        let table = qual.to_owned();
        let column = entity.columns[k].name.clone();
        let v = clone_value(&model.values[k]);
        cs.push(Cond::ColEq(ColRef { table, column }, v));
        let ghost mid = cs@;
        push_pk_conds(cs, entity, qual, model, i + 1);
        proof {
            let oldlen = old(cs)@.len() as int;
            assert(cs@.take(mid.len() as int) == mid);
            assert(cs@.take(oldlen) =~= old(cs)@);
            assert forall|j: int| 0 <= j < entity.primary_key@.len() - i implies {
                &&& (#[trigger] cs@[oldlen + j]) matches Cond::ColEq(cr, v2)
                &&& cs@[oldlen + j]->ColEq_0.table@ == qual@
                &&& cs@[oldlen + j]->ColEq_0.column@ == entity.columns@[
                    entity.primary_key@[i + j] as int
                ].name@
                &&& cs@[oldlen + j]->ColEq_1@ == model.values@[entity.primary_key@[i + j] as int]@
            } by {
                if j == 0 {
                    assert(cs@[oldlen] == cs@.take(mid.len() as int)[oldlen]);
                    assert(cs@[oldlen] == mid[oldlen]);
                } else {
                    assert(cs@[mid.len() + (j - 1)] matches Cond::ColEq(cr, v2));
                    assert(oldlen + j == mid.len() + (j - 1));
                }
            }
        }
    }
}

/// A select of every column of `entity` from its table, with the
/// entity's own "not soft-deleted" predicate already merged in where the
/// entity soft-deletes.
pub fn find(entity: EntityDef) -> (r: Select)
    requires
        entity.wf(),
    ensures
        r.entity == entity,
        r.query.from@ == entity.table@,
        spec_selects_all(r.query.selects@, 0, entity.table@, entity.columns@),
        r.query.joins@.len() == 0,
        r.query.order_by@.len() == 0,
        entity.soft_delete is None ==> r.query.conditions@.len() == 0,
        entity.soft_delete is Some ==> r.query.conditions@.len() == 1 && spec_is_sd_cond_at(
            r.query.conditions@[0],
            entity.table@,
            entity,
        ),
{
    let mut selects: Vec<SelectExpr> = Vec::new();
    push_select_exprs(&mut selects, entity.table.as_str(), &entity.columns, 0);
    let mut conditions: Vec<Cond> = Vec::new();
    push_sd_cond(&mut conditions, &entity, entity.table.as_str());
    let from = entity.table.clone();
    let query = SelectStatement {
        selects,
        from,
        joins: Vec::new(),
        conditions,
        order_by: Vec::new(),
    };
    Select { entity, query }
}

impl Select {
    /// Appends one caller-supplied conjunct; everything else stands.
    pub fn filter(self, c: Cond) -> (r: Select)
        ensures
            r.entity == self.entity,
            r.query.selects == self.query.selects,
            r.query.from == self.query.from,
            r.query.joins == self.query.joins,
            r.query.order_by == self.query.order_by,
            r.query.conditions@ == self.query.conditions@.push(c),
    {
        let mut query = self.query;
        query.conditions.push(c);
        Select { entity: self.entity, query }
    }

    /// Appends one ascending ORDER BY expression.
    pub fn order_by_asc(self, col: ColRef) -> (r: Select)
        ensures
            r.entity == self.entity,
            r.query.selects == self.query.selects,
            r.query.from == self.query.from,
            r.query.joins == self.query.joins,
            r.query.conditions == self.query.conditions,
            r.query.order_by@ == self.query.order_by@.push(
                (OrderExpr { col, dir: OrderDir::Asc }),
            ),
    {
        let mut query = self.query;
        query.order_by.push(OrderExpr { col, dir: OrderDir::Asc });
        Select { entity: self.entity, query }
    }

    /// Renders the select for the given backend.
    pub fn build(&self, backend: DbBackend) -> (s: Statement)
        ensures
            s.sql@ == spec_render_select(self.query, backend),
            s.backend == backend,
    {
        let sql = render_select(&self.query, backend);
        Statement { sql, backend }
    }
}

/// The table qualifier the `h`-th hop of a reversed (model-to-target)
/// linked traversal joins against: the target's own table for the first
/// hop, the previous hop's alias after that.
pub open spec fn spec_linked_prev_qual(entities: Seq<EntityDef>, path_len: int, h: int) -> Seq<
    char,
> {
    if h == 0 {
        entities[path_len].table@
    } else {
        spec_join_alias(h - 1)
    }
}

/// The table qualifier the `h`-th hop of a forward linked traversal
/// joins from: the base table for the first hop, the previous hop's
/// alias after that.
pub open spec fn spec_also_prev_qual(entities: Seq<EntityDef>, h: int) -> Seq<char> {
    if h == 0 {
        entities[0].table@
    } else {
        spec_join_alias(h - 1)
    }
}

/// `cs` is exactly the per-hop soft-delete conjuncts of a reversed
/// linked traversal from hop `i` on: hop `h` joins `entities[L - 1 - h]`
/// under alias `r{h}` and contributes that entity's "not soft-deleted"
/// predicate exactly when it has a soft-delete policy.
pub open spec fn spec_linked_hop_conds(
    cs: Seq<Cond>,
    entities: Seq<EntityDef>,
    path_len: int,
    i: int,
) -> bool
    decreases path_len - i,
{
    if i >= path_len {
        cs.len() == 0
    } else {
        match entities[path_len - 1 - i].soft_delete {
            Option::Some(_) => {
                &&& cs.len() >= 1
                &&& spec_is_sd_cond_at(cs[0], spec_join_alias(i), entities[path_len - 1 - i])
                &&& spec_linked_hop_conds(cs.skip(1), entities, path_len, i + 1)
            },
            Option::None => spec_linked_hop_conds(cs, entities, path_len, i + 1),
        }
    }
}

/// `cs` is exactly the per-hop soft-delete conjuncts of a forward linked
/// traversal from hop `i` on: hop `h` joins `entities[h + 1]` under
/// alias `r{h}`.
pub open spec fn spec_also_hop_conds(
    cs: Seq<Cond>,
    entities: Seq<EntityDef>,
    path_len: int,
    i: int,
) -> bool
    decreases path_len - i,
{
    if i >= path_len {
        cs.len() == 0
    } else {
        match entities[i + 1].soft_delete {
            Option::Some(_) => {
                &&& cs.len() >= 1
                &&& spec_is_sd_cond_at(cs[0], spec_join_alias(i), entities[i + 1])
                &&& spec_also_hop_conds(cs.skip(1), entities, path_len, i + 1)
            },
            Option::None => spec_also_hop_conds(cs, entities, path_len, i + 1),
        }
    }
}

fn push_linked_hop_conds(cs: &mut Vec<Cond>, link: &Linked, i: usize)
    requires
        link.wf(),
        i <= link.rels@.len(),
    ensures
        final(cs)@.len() >= old(cs)@.len(),
        final(cs)@.take(old(cs)@.len() as int) == old(cs)@,
        spec_linked_hop_conds(
            final(cs)@.skip(old(cs)@.len() as int),
            link.entities@,
            link.rels@.len() as int,
            i as int,
        ),
    decreases link.rels@.len() - i,
{
    let path_len = link.rels.len();
    if i < path_len {
        proof {
            assert(link.entities@[path_len - 1 - i].wf());
        }
        let ent = &link.entities[path_len - 1 - i];
        match &ent.soft_delete {
            Option::None => {
                push_linked_hop_conds(cs, link, i + 1);
            },
            Option::Some(p) => {
                let table = join_alias(i);
                let column = ent.columns[p.column].name.clone();
                cs.push(Cond::ColIsNull(ColRef { table, column }));
                let ghost mid = cs@;
                push_linked_hop_conds(cs, link, i + 1);
                proof {
                    let oldlen = old(cs)@.len() as int;
                    assert(cs@.take(mid.len() as int) == mid);
                    assert(cs@.take(oldlen) =~= old(cs)@);
                    assert(cs@[oldlen] == cs@.take(mid.len() as int)[oldlen]);
                    assert(cs@[oldlen] == mid[oldlen]);
                    assert(cs@.skip(oldlen).skip(1) =~= cs@.skip(mid.len() as int));
                    assert(cs@.skip(oldlen)[0] == cs@[oldlen]);
                }
            },
        }
    } else {
        proof {
            assert(cs@.skip(old(cs)@.len() as int) =~= Seq::<Cond>::empty());
        }
    }
}

fn push_also_hop_conds(cs: &mut Vec<Cond>, link: &Linked, i: usize)
    requires
        link.wf(),
        i <= link.rels@.len(),
    ensures
        final(cs)@.len() >= old(cs)@.len(),
        final(cs)@.take(old(cs)@.len() as int) == old(cs)@,
        spec_also_hop_conds(
            final(cs)@.skip(old(cs)@.len() as int),
            link.entities@,
            link.rels@.len() as int,
            i as int,
        ),
    decreases link.rels@.len() - i,
{
    let path_len = link.rels.len();
    if i < path_len {
        proof {
            assert(link.entities@[i + 1].wf());
        }
        let ent = &link.entities[i + 1];
        match &ent.soft_delete {
            Option::None => {
                push_also_hop_conds(cs, link, i + 1);
            },
            Option::Some(p) => {
                let table = join_alias(i);
                let column = ent.columns[p.column].name.clone();
                cs.push(Cond::ColIsNull(ColRef { table, column }));
                let ghost mid = cs@;
                push_also_hop_conds(cs, link, i + 1);
                proof {
                    let oldlen = old(cs)@.len() as int;
                    assert(cs@.take(mid.len() as int) == mid);
                    assert(cs@.take(oldlen) =~= old(cs)@);
                    assert(cs@[oldlen] == cs@.take(mid.len() as int)[oldlen]);
                    assert(cs@[oldlen] == mid[oldlen]);
                    assert(cs@.skip(oldlen).skip(1) =~= cs@.skip(mid.len() as int));
                    assert(cs@.skip(oldlen)[0] == cs@[oldlen]);
                }
            },
        }
    } else {
        proof {
            assert(cs@.skip(old(cs)@.len() as int) =~= Seq::<Cond>::empty());
        }
    }
}

fn push_linked_joins(js: &mut Vec<Join>, link: &Linked, i: usize)
    requires
        link.wf(),
        i <= link.rels@.len(),
    ensures
        final(js)@.len() == old(js)@.len() + (link.rels@.len() - i),
        final(js)@.take(old(js)@.len() as int) == old(js)@,
        forall|j: int|
            0 <= j < link.rels@.len() - i ==> {
                let h = i + j;
                let path_len = link.rels@.len() as int;
                &&& (#[trigger] final(js)@[old(js)@.len() + j]).join_type == JoinType::Inner
                &&& final(js)@[old(js)@.len() + j].table@ == link.entities@[path_len - 1
                    - h].table@
                &&& final(js)@[old(js)@.len() + j].alias is Some
                &&& final(js)@[old(js)@.len() + j].alias->0@ == spec_join_alias(h)
                &&& final(js)@[old(js)@.len() + j].on_left.table@ == spec_join_alias(h)
                &&& final(js)@[old(js)@.len() + j].on_left.column@ == link.rels@[path_len - 1
                    - h].from_col@
                &&& final(js)@[old(js)@.len() + j].on_right.table@ == spec_linked_prev_qual(
                    link.entities@,
                    path_len,
                    h,
                )
                &&& final(js)@[old(js)@.len() + j].on_right.column@ == link.rels@[path_len - 1
                    - h].to_col@
            },
    decreases link.rels@.len() - i,
{
    let path_len = link.rels.len();
    if i < path_len {
        let rel = &link.rels[path_len - 1 - i];
        let alias = join_alias(i);
        let on_left = ColRef { table: join_alias(i), column: rel.from_col.clone() };
        let prev = if i == 0 {
            link.entities[path_len].table.clone()
        } else {
            join_alias(i - 1)
        };
        let on_right = ColRef { table: prev, column: rel.to_col.clone() };
        let table = link.entities[path_len - 1 - i].table.clone();
        js.push(
            Join { join_type: JoinType::Inner, table, alias: Option::Some(alias), on_left, on_right },
        );
        let ghost mid = js@;
        push_linked_joins(js, link, i + 1);
        proof {
            let oldlen = old(js)@.len() as int;
            assert(js@.take(mid.len() as int) == mid);
            assert(js@.take(oldlen) =~= old(js)@);
            assert forall|j: int| 0 <= j < link.rels@.len() - i implies {
                let h = i + j;
                let pl = link.rels@.len() as int;
                &&& (#[trigger] js@[oldlen + j]).join_type == JoinType::Inner
                &&& js@[oldlen + j].table@ == link.entities@[pl - 1 - h].table@
                &&& js@[oldlen + j].alias is Some
                &&& js@[oldlen + j].alias->0@ == spec_join_alias(h)
                &&& js@[oldlen + j].on_left.table@ == spec_join_alias(h)
                &&& js@[oldlen + j].on_left.column@ == link.rels@[pl - 1 - h].from_col@
                &&& js@[oldlen + j].on_right.table@ == spec_linked_prev_qual(
                    link.entities@,
                    pl,
                    h,
                )
                &&& js@[oldlen + j].on_right.column@ == link.rels@[pl - 1 - h].to_col@
            } by {
                if j == 0 {
                    assert(js@[oldlen] == js@.take(mid.len() as int)[oldlen]);
                    assert(js@[oldlen] == mid[oldlen]);
                } else {
                    assert((js@[mid.len() + (j - 1)]).join_type == JoinType::Inner);
                    assert(oldlen + j == mid.len() + (j - 1));
                }
            }
        }
    }
}

fn push_also_joins(js: &mut Vec<Join>, link: &Linked, i: usize)
    requires
        link.wf(),
        i <= link.rels@.len(),
    ensures
        final(js)@.len() == old(js)@.len() + (link.rels@.len() - i),
        final(js)@.take(old(js)@.len() as int) == old(js)@,
        forall|j: int|
            0 <= j < link.rels@.len() - i ==> {
                let h = i + j;
                &&& (#[trigger] final(js)@[old(js)@.len() + j]).join_type == JoinType::Left
                &&& final(js)@[old(js)@.len() + j].table@ == link.entities@[h + 1].table@
                &&& final(js)@[old(js)@.len() + j].alias is Some
                &&& final(js)@[old(js)@.len() + j].alias->0@ == spec_join_alias(h)
                &&& final(js)@[old(js)@.len() + j].on_left.table@ == spec_also_prev_qual(
                    link.entities@,
                    h,
                )
                &&& final(js)@[old(js)@.len() + j].on_left.column@ == link.rels@[h].from_col@
                &&& final(js)@[old(js)@.len() + j].on_right.table@ == spec_join_alias(h)
                &&& final(js)@[old(js)@.len() + j].on_right.column@ == link.rels@[h].to_col@
            },
    decreases link.rels@.len() - i,
{
    let path_len = link.rels.len();
    if i < path_len {
        let rel = &link.rels[i];
        let alias = join_alias(i);
        let prev = if i == 0 {
            link.entities[0].table.clone()
        } else {
            join_alias(i - 1)
        };
        let on_left = ColRef { table: prev, column: rel.from_col.clone() };
        let on_right = ColRef { table: join_alias(i), column: rel.to_col.clone() };
        let table = link.entities[i + 1].table.clone();
        js.push(
            Join { join_type: JoinType::Left, table, alias: Option::Some(alias), on_left, on_right },
        );
        let ghost mid = js@;
        push_also_joins(js, link, i + 1);
        proof {
            let oldlen = old(js)@.len() as int;
            assert(js@.take(mid.len() as int) == mid);
            assert(js@.take(oldlen) =~= old(js)@);
            assert forall|j: int| 0 <= j < link.rels@.len() - i implies {
                let h = i + j;
                &&& (#[trigger] js@[oldlen + j]).join_type == JoinType::Left
                &&& js@[oldlen + j].table@ == link.entities@[h + 1].table@
                &&& js@[oldlen + j].alias is Some
                &&& js@[oldlen + j].alias->0@ == spec_join_alias(h)
                &&& js@[oldlen + j].on_left.table@ == spec_also_prev_qual(link.entities@, h)
                &&& js@[oldlen + j].on_left.column@ == link.rels@[h].from_col@
                &&& js@[oldlen + j].on_right.table@ == spec_join_alias(h)
                &&& js@[oldlen + j].on_right.column@ == link.rels@[h].to_col@
            } by {
                if j == 0 {
                    assert(js@[oldlen] == js@.take(mid.len() as int)[oldlen]);
                    assert(js@[oldlen] == mid[oldlen]);
                } else {
                    assert((js@[mid.len() + (j - 1)]).join_type == JoinType::Left);
                    assert(oldlen + j == mid.len() + (j - 1));
                }
            }
        }
    }
}

/// A join-augmented select over a direct relation, as issued from the
/// owning entity's side: selects the related entity's rows, with exactly
/// one INNER JOIN back to the owning table on the declared column
/// mapping, the related entity's "not soft-deleted" predicate first (if
/// it soft-deletes), then the owning entity's (if it soft-deletes).
/// Caller-supplied filters are appended after these conjuncts.
pub fn find_related(owner: &EntityDef, related: EntityDef, rel: &RelationDef) -> (r: Select)
    requires
        owner.wf(),
        related.wf(),
        rel.from_table@ == owner.table@,
        rel.to_table@ == related.table@,
    ensures
        r.entity == related,
        r.query.from@ == related.table@,
        spec_selects_all(r.query.selects@, 0, related.table@, related.columns@),
        r.query.joins@.len() == 1,
        r.query.joins@[0].join_type == JoinType::Inner,
        r.query.joins@[0].table@ == owner.table@,
        r.query.joins@[0].alias is None,
        r.query.joins@[0].on_left.table@ == owner.table@,
        r.query.joins@[0].on_left.column@ == rel.from_col@,
        r.query.joins@[0].on_right.table@ == related.table@,
        r.query.joins@[0].on_right.column@ == rel.to_col@,
        r.query.order_by@.len() == 0,
        r.query.conditions@.len() == (if related.soft_delete is Some { 1int } else { 0int }) + (
        if owner.soft_delete is Some { 1int } else { 0int }),
        related.soft_delete is Some ==> spec_is_sd_cond_at(
            r.query.conditions@[0],
            related.table@,
            related,
        ),
        owner.soft_delete is Some ==> spec_is_sd_cond_at(
            r.query.conditions@[r.query.conditions@.len() - 1],
            owner.table@,
            *owner,
        ),
{
    let mut selects: Vec<SelectExpr> = Vec::new();
    push_select_exprs(&mut selects, related.table.as_str(), &related.columns, 0);
    let mut conditions: Vec<Cond> = Vec::new();
    push_sd_cond(&mut conditions, &related, related.table.as_str());
    push_sd_cond(&mut conditions, owner, owner.table.as_str());
    let join = Join {
        join_type: JoinType::Inner,
        table: owner.table.clone(),
        alias: Option::None,
        on_left: ColRef { table: owner.table.clone(), column: rel.from_col.clone() },
        on_right: ColRef { table: related.table.clone(), column: rel.to_col.clone() },
    };
    let mut joins: Vec<Join> = Vec::new();
    joins.push(join);
    let from = related.table.clone();
    let query = SelectStatement {
        selects,
        from,
        joins,
        conditions,
        order_by: Vec::new(),
    };
    Select { entity: related, query }
}

impl Model {
    /// The lazy counterpart of [`find_related`]: the same join-augmented
    /// select, further narrowed to the rows related to this concrete
    /// model by its primary key.
    pub fn find_related(&self, owner: &EntityDef, related: EntityDef, rel: &RelationDef) -> (r:
        Select)
        requires
            owner.wf(),
            related.wf(),
            self.wf(*owner),
            rel.from_table@ == owner.table@,
            rel.to_table@ == related.table@,
        ensures
            r.entity == related,
            r.query.from@ == related.table@,
            spec_selects_all(r.query.selects@, 0, related.table@, related.columns@),
            r.query.joins@.len() == 1,
            r.query.joins@[0].join_type == JoinType::Inner,
            r.query.joins@[0].table@ == owner.table@,
            r.query.joins@[0].alias is None,
            r.query.joins@[0].on_left.table@ == owner.table@,
            r.query.joins@[0].on_left.column@ == rel.from_col@,
            r.query.joins@[0].on_right.table@ == related.table@,
            r.query.joins@[0].on_right.column@ == rel.to_col@,
            r.query.order_by@.len() == 0,
            ({
                let base = (if related.soft_delete is Some { 1int } else { 0int }) + (
                if owner.soft_delete is Some { 1int } else { 0int });
                &&& r.query.conditions@.len() == base + owner.primary_key@.len()
                &&& (related.soft_delete is Some ==> spec_is_sd_cond_at(
                    r.query.conditions@[0],
                    related.table@,
                    related,
                ))
                &&& (owner.soft_delete is Some ==> spec_is_sd_cond_at(
                    r.query.conditions@[base - 1],
                    owner.table@,
                    *owner,
                ))
                &&& spec_pk_conds(
                    r.query.conditions@.skip(base),
                    *owner,
                    owner.table@,
                    *self,
                )
            }),
    {
        let sel = find_related(owner, related, rel);
        let Select { entity, query } = sel;
        let mut query = query;
        let ghost before = query.conditions@;
        push_pk_conds(&mut query.conditions, owner, owner.table.as_str(), self, 0);
        proof {
            let base = (if entity.soft_delete is Some { 1int } else { 0int }) + (
            if owner.soft_delete is Some { 1int } else { 0int });
            let cs = query.conditions@;
            assert(cs.take(base) == before);
            if owner.soft_delete is Some {
                assert(cs[base - 1] == cs.take(base)[base - 1]);
            }
            if entity.soft_delete is Some {
                assert(cs[0] == cs.take(base)[0]);
            }
            assert forall|j: int| 0 <= j < owner.primary_key@.len() implies {
                &&& (#[trigger] cs.skip(base)[j]) matches Cond::ColEq(cr, v2)
                &&& cs.skip(base)[j]->ColEq_0.table@ == owner.table@
                &&& cs.skip(base)[j]->ColEq_0.column@ == owner.columns@[
                    owner.primary_key@[j] as int
                ].name@
                &&& cs.skip(base)[j]->ColEq_1@ == self.values@[owner.primary_key@[j] as int]@
            } by {
                assert(cs.skip(base)[j] == cs[base + j]);
                assert(cs[before.len() + j] matches Cond::ColEq(cr, v2));
            }
        }
        Select { entity, query }
    }

    /// Resolves a multi-hop linked path from this concrete model: a
    /// select of the path's target entity, joining back along the path
    /// with one aliased INNER JOIN per hop (`r0`, `r1`, ... in traversal
    /// order, the counter fresh for this build), the target's "not
    /// soft-deleted" predicate first, then each hop's own predicate
    /// where its entity soft-deletes, then this model's primary key at
    /// the final hop's alias. Self-referencing paths resolve through the
    /// aliases: the same physical table may appear both as the base and
    /// under an alias.
    pub fn find_linked(&self, link: Linked) -> (r: Select)
        requires
            link.wf(),
            self.wf(link.entities@[0]),
        ensures
            r.entity == link.entities@[link.rels@.len() as int],
            r.query.from@ == link.entities@[link.rels@.len() as int].table@,
            spec_selects_all(
                r.query.selects@,
                0,
                link.entities@[link.rels@.len() as int].table@,
                link.entities@[link.rels@.len() as int].columns@,
            ),
            r.query.order_by@.len() == 0,
            r.query.joins@.len() == link.rels@.len(),
            forall|h: int|
                0 <= h < link.rels@.len() ==> {
                    let path_len = link.rels@.len() as int;
                    &&& (#[trigger] r.query.joins@[h]).join_type == JoinType::Inner
                    &&& r.query.joins@[h].table@ == link.entities@[path_len - 1 - h].table@
                    &&& r.query.joins@[h].alias is Some
                    &&& r.query.joins@[h].alias->0@ == spec_join_alias(h)
                    &&& r.query.joins@[h].on_left.table@ == spec_join_alias(h)
                    &&& r.query.joins@[h].on_left.column@ == link.rels@[path_len - 1 - h].from_col@
                    &&& r.query.joins@[h].on_right.table@ == spec_linked_prev_qual(
                        link.entities@,
                        path_len,
                        h,
                    )
                    &&& r.query.joins@[h].on_right.column@ == link.rels@[path_len - 1 - h].to_col@
                },
            ({
                let cs = r.query.conditions@;
                let path_len = link.rels@.len() as int;
                let target = link.entities@[path_len];
                let base = if target.soft_delete is Some { 1int } else { 0int };
                let pkn = link.entities@[0].primary_key@.len() as int;
                &&& cs.len() >= base + pkn
                &&& (target.soft_delete is Some ==> spec_is_sd_cond_at(
                    cs[0],
                    target.table@,
                    target,
                ))
                &&& spec_linked_hop_conds(
                    cs.subrange(base, cs.len() - pkn),
                    link.entities@,
                    path_len,
                    0,
                )
                &&& spec_pk_conds(
                    cs.subrange(cs.len() - pkn, cs.len() as int),
                    link.entities@[0],
                    spec_join_alias(path_len - 1),
                    *self,
                )
            }),
    {
        let path_len = link.rels.len();
        proof {
            assert(link.entities@[path_len as int].wf());
            assert(link.entities@[0].wf());
        }
        let mut selects: Vec<SelectExpr> = Vec::new();
        push_select_exprs(
            &mut selects,
            link.entities[path_len].table.as_str(),
            &link.entities[path_len].columns,
            0,
        );
        let mut conditions: Vec<Cond> = Vec::new();
        push_sd_cond(&mut conditions, &link.entities[path_len], link.entities[path_len].table.as_str());
        let ghost s0 = conditions@;
        push_linked_hop_conds(&mut conditions, &link, 0);
        let ghost s1 = conditions@;
        let owner_alias = join_alias(path_len - 1);
        push_pk_conds(&mut conditions, &link.entities[0], owner_alias.as_str(), self, 0);
        let ghost s2 = conditions@;
        let mut joins: Vec<Join> = Vec::new();
        push_linked_joins(&mut joins, &link, 0);
        proof {
            assert forall|h: int| 0 <= h < link.rels@.len() implies {
                let pl = link.rels@.len() as int;
                &&& (#[trigger] joins@[h]).join_type == JoinType::Inner
                &&& joins@[h].table@ == link.entities@[pl - 1 - h].table@
                &&& joins@[h].alias is Some
                &&& joins@[h].alias->0@ == spec_join_alias(h)
                &&& joins@[h].on_left.table@ == spec_join_alias(h)
                &&& joins@[h].on_left.column@ == link.rels@[pl - 1 - h].from_col@
                &&& joins@[h].on_right.table@ == spec_linked_prev_qual(link.entities@, pl, h)
                &&& joins@[h].on_right.column@ == link.rels@[pl - 1 - h].to_col@
            } by {
                assert((joins@[0 + h]).join_type == JoinType::Inner);
            }
        }
        let from = link.entities[path_len].table.clone();
        let query = SelectStatement {
            selects,
            from,
            joins,
            conditions,
            order_by: Vec::new(),
        };
        let Linked { entities, rels: _discarded } = link;
        let mut entities = entities;
        let target = match entities.pop() {
            Option::Some(e) => e,
            Option::None => {
                proof {
                    assert(false);
                }
                unreached()
            },
        };
        proof {
            let base = s0.len() as int;
            let pkn = s2.len() - s1.len();
            assert(s2.take(s1.len() as int) == s1);
            assert(s1.take(base) == s0);
            assert(s2.subrange(base, s1.len() as int) =~= s1.skip(base));
            if s0.len() == 1 {
                assert(s2[0] == s2.take(s1.len() as int)[0]);
                assert(s1[0] == s1.take(base)[0]);
            }
            assert forall|j: int| 0 <= j < pkn implies {
                &&& (#[trigger] s2.subrange(s1.len() as int, s2.len() as int)[j]) matches Cond::ColEq(cr, v2)
                &&& s2.subrange(s1.len() as int, s2.len() as int)[j]->ColEq_0.table@
                    == spec_join_alias(path_len - 1)
                &&& s2.subrange(s1.len() as int, s2.len() as int)[j]->ColEq_0.column@
                    == link.entities@[0].columns@[link.entities@[0].primary_key@[j] as int].name@
                &&& s2.subrange(s1.len() as int, s2.len() as int)[j]->ColEq_1@ == self.values@[
                    link.entities@[0].primary_key@[j] as int
                ]@
            } by {
                assert(s2.subrange(s1.len() as int, s2.len() as int)[j] == s2[s1.len() + j]);
            }
        }
        Select { entity: target, query }
    }
}

impl Select {
    /// Expands a forward linked path off this select into a pair query:
    /// the base entity's columns aliased `A_`, the path target's columns
    /// aliased `B_` under the final hop's alias, one aliased LEFT JOIN
    /// per hop (`r0`, `r1`, ... in traversal order), the base select's
    /// conditions kept, and each hop target's "not soft-deleted"
    /// predicate appended where it soft-deletes. An unmatched base row
    /// carries NULLs on the joined side, which satisfy the appended `IS
    /// NULL` conjuncts.
    pub fn find_also_linked(self, link: Linked) -> (r: SelectTwo)
        requires
            link.wf(),
            self.entity.wf(),
            self.query.joins@.len() == 0,
            self.query.from@ == link.entities@[0].table@,
            self.entity.table@ == self.query.from@,
        ensures
            r.left == self.entity,
            r.right == link.entities@[link.rels@.len() as int],
            r.query.from == self.query.from,
            r.query.order_by == self.query.order_by,
            r.query.selects@.len() == self.entity.columns@.len() + link.entities@[
                link.rels@.len() as int
            ].columns@.len(),
            spec_selects_prefixed(
                r.query.selects@,
                0,
                self.entity.table@,
                self.entity.columns@,
                seq!['A', '_'],
            ),
            spec_selects_prefixed(
                r.query.selects@,
                self.entity.columns@.len() as int,
                spec_join_alias(link.rels@.len() - 1),
                link.entities@[link.rels@.len() as int].columns@,
                seq!['B', '_'],
            ),
            r.query.joins@.len() == link.rels@.len(),
            forall|h: int|
                0 <= h < link.rels@.len() ==> {
                    &&& (#[trigger] r.query.joins@[h]).join_type == JoinType::Left
                    &&& r.query.joins@[h].table@ == link.entities@[h + 1].table@
                    &&& r.query.joins@[h].alias is Some
                    &&& r.query.joins@[h].alias->0@ == spec_join_alias(h)
                    &&& r.query.joins@[h].on_left.table@ == spec_also_prev_qual(
                        link.entities@,
                        h,
                    )
                    &&& r.query.joins@[h].on_left.column@ == link.rels@[h].from_col@
                    &&& r.query.joins@[h].on_right.table@ == spec_join_alias(h)
                    &&& r.query.joins@[h].on_right.column@ == link.rels@[h].to_col@
                },
            r.query.conditions@.len() >= self.query.conditions@.len(),
            r.query.conditions@.take(self.query.conditions@.len() as int)
                == self.query.conditions@,
            spec_also_hop_conds(
                r.query.conditions@.skip(self.query.conditions@.len() as int),
                link.entities@,
                link.rels@.len() as int,
                0,
            ),
    {
        let path_len = link.rels.len();
        proof {
            assert(link.entities@[path_len as int].wf());
            reveal_strlit("A_");
            reveal_strlit("B_");
            assert("A_"@ =~= seq!['A', '_']);
            assert("B_"@ =~= seq!['B', '_']);
        }
        let mut selects: Vec<SelectExpr> = Vec::new();
        push_select_exprs_prefixed(
            &mut selects,
            self.entity.table.as_str(),
            &self.entity.columns,
            "A_",
            0,
        );
        let ghost left_part = selects@;
        let right_alias = join_alias(path_len - 1);
        push_select_exprs_prefixed(
            &mut selects,
            right_alias.as_str(),
            &link.entities[path_len].columns,
            "B_",
            0,
        );
        proof {
            let ll = left_part.len() as int;
            assert(selects@.take(ll) == left_part);
            assert forall|i: int| 0 <= i < self.entity.columns@.len() implies {
                &&& (#[trigger] selects@[0 + i]).col.table@ == self.entity.table@
                &&& selects@[0 + i].col.column@ == self.entity.columns@[i].name@
                &&& selects@[0 + i].alias is Some
                &&& selects@[0 + i].alias->0@ == seq!['A', '_'] + self.entity.columns@[i].name@
            } by {
                assert((left_part[0 + i]).col.table@ == self.entity.table@);
                assert(selects@[0 + i] == selects@.take(ll)[0 + i]);
            }
            assert forall|i: int| 0 <= i < link.entities@[path_len as int].columns@.len() implies {
                &&& (#[trigger] selects@[ll + i]).col.table@ == spec_join_alias(path_len - 1)
                &&& selects@[ll + i].col.column@ == link.entities@[path_len as int].columns@[
                    i
                ].name@
                &&& selects@[ll + i].alias is Some
                &&& selects@[ll + i].alias->0@ == seq!['B', '_'] + link.entities@[
                    path_len as int
                ].columns@[i].name@
            } by {
                assert((selects@[left_part.len() + i]).col.table@ == right_alias@);
            }
        }
        let mut joins: Vec<Join> = Vec::new();
        push_also_joins(&mut joins, &link, 0);
        proof {
            assert forall|h: int| 0 <= h < link.rels@.len() implies {
                &&& (#[trigger] joins@[h]).join_type == JoinType::Left
                &&& joins@[h].table@ == link.entities@[h + 1].table@
                &&& joins@[h].alias is Some
                &&& joins@[h].alias->0@ == spec_join_alias(h)
                &&& joins@[h].on_left.table@ == spec_also_prev_qual(link.entities@, h)
                &&& joins@[h].on_left.column@ == link.rels@[h].from_col@
                &&& joins@[h].on_right.table@ == spec_join_alias(h)
                &&& joins@[h].on_right.column@ == link.rels@[h].to_col@
            } by {
                assert((joins@[0 + h]).join_type == JoinType::Left);
            }
        }
        let mut conditions = self.query.conditions;
        push_also_hop_conds(&mut conditions, &link, 0);
        let query = SelectStatement {
            selects,
            from: self.query.from,
            joins,
            conditions,
            order_by: self.query.order_by,
        };
        let Linked { entities, rels: _discarded } = link;
        let mut entities = entities;
        let right = match entities.pop() {
            Option::Some(e) => e,
            Option::None => {
                proof {
                    assert(false);
                }
                unreached()
            },
        };
        SelectTwo { left: self.entity, right, query }
    }
}

impl SelectTwo {
    /// Appends one caller-supplied conjunct; everything else stands.
    pub fn filter(self, c: Cond) -> (r: SelectTwo)
        ensures
            r.left == self.left,
            r.right == self.right,
            r.query.selects == self.query.selects,
            r.query.from == self.query.from,
            r.query.joins == self.query.joins,
            r.query.order_by == self.query.order_by,
            r.query.conditions@ == self.query.conditions@.push(c),
    {
        let mut query = self.query;
        query.conditions.push(c);
        SelectTwo { left: self.left, right: self.right, query }
    }

    /// Appends one ascending ORDER BY expression.
    pub fn order_by_asc(self, col: ColRef) -> (r: SelectTwo)
        ensures
            r.left == self.left,
            r.right == self.right,
            r.query.selects == self.query.selects,
            r.query.from == self.query.from,
            r.query.joins == self.query.joins,
            r.query.conditions == self.query.conditions,
            r.query.order_by@ == self.query.order_by@.push(
                (OrderExpr { col, dir: OrderDir::Asc }),
            ),
    {
        let mut query = self.query;
        query.order_by.push(OrderExpr { col, dir: OrderDir::Asc });
        SelectTwo { left: self.left, right: self.right, query }
    }

    /// Renders the pair select for the given backend.
    pub fn build(&self, backend: DbBackend) -> (s: Statement)
        ensures
            s.sql@ == spec_render_select(self.query, backend),
            s.backend == backend,
    {
        let sql = render_select(&self.query, backend);
        Statement { sql, backend }
    }
}

} // verus!
