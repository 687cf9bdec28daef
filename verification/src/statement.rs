//! Logical statements and their rendered SQL text.
//!
//! A logical statement (delete, update, insert, select with joins) is a
//! plain value; [`spec_render_delete`] and its companions define, down to
//! the character, the SQL text each backend dialect receives. Rendering is
//! a pure function of the statement and the dialect: identifier quoting
//! follows the backend, clause order is SELECT list, FROM, JOINs in
//! declaration order, WHERE as one conjunction, ORDER BY.

use vstd::prelude::*;
use crate::value::{Value, ValueView, spec_value_sql};

verus! {

/// A backend dialect: decides the identifier quoting convention.
#[derive(Debug, Clone, Copy, PartialEq, Eq, Structural)]
pub enum DbBackend {
    MySql,
    Postgres,
    Sqlite,
}

/// A built statement: final SQL text, tagged with the backend it was
/// rendered for. Constructed fresh per operation and never mutated.
#[derive(Debug)]
pub struct Statement {
    pub sql: String,
    pub backend: DbBackend,
}

/// A column reference qualified by a table name or join alias.
#[derive(Debug)]
pub struct ColRef {
    pub table: String,
    pub column: String,
}

/// One conjunct of a WHERE clause.
#[derive(Debug)]
pub enum Cond {
    /// `table.column = value`
    ColEq(ColRef, Value),
    /// `table.column IS NULL`
    ColIsNull(ColRef),
}

/// The join flavour of one JOIN clause.
#[derive(Debug, Clone, Copy, PartialEq, Eq, Structural)]
pub enum JoinType {
    Inner,
    Left,
}

/// One JOIN clause: the joined table, an optional synthetic alias, and
/// the equality the join is on.
#[derive(Debug)]
pub struct Join {
    pub join_type: JoinType,
    pub table: String,
    pub alias: Option<String>,
    pub on_left: ColRef,
    pub on_right: ColRef,
}

/// One expression of a SELECT list: a column, optionally aliased.
#[derive(Debug)]
pub struct SelectExpr {
    pub col: ColRef,
    pub alias: Option<String>,
}

/// The direction of one ORDER BY expression.
#[derive(Debug, Clone, Copy, PartialEq, Eq, Structural)]
pub enum OrderDir {
    Asc,
    Desc,
}

/// One ORDER BY expression.
#[derive(Debug)]
pub struct OrderExpr {
    pub col: ColRef,
    pub dir: OrderDir,
}

/// A logical DELETE: target table and WHERE conjunction. A delete
/// carries no select list, ordering or limit.
#[derive(Debug)]
pub struct DeleteStatement {
    pub table: String,
    pub conditions: Vec<Cond>,
}

/// One `column = value` assignment of an UPDATE's SET list.
#[derive(Debug)]
pub struct Assignment {
    pub column: String,
    pub value: Value,
}

/// A logical UPDATE: target table, SET list and WHERE conjunction.
#[derive(Debug)]
pub struct UpdateStatement {
    pub table: String,
    pub assignments: Vec<Assignment>,
    pub conditions: Vec<Cond>,
}

/// A logical INSERT: target table, the columns being set and one value
/// per column.
#[derive(Debug)]
pub struct InsertStatement {
    pub table: String,
    pub columns: Vec<String>,
    pub values: Vec<Value>,
}

/// A logical SELECT: select list, base table, joins in declaration
/// order, WHERE conjunction and ORDER BY list.
#[derive(Debug)]
pub struct SelectStatement {
    pub selects: Vec<SelectExpr>,
    pub from: String,
    pub joins: Vec<Join>,
    pub conditions: Vec<Cond>,
    pub order_by: Vec<OrderExpr>,
}

/// The identifier quote character of a backend: backticks for MySQL,
/// double quotes for Postgres and SQLite.
pub open spec fn spec_quote(b: DbBackend) -> char {
    match b {
        DbBackend::MySql => '`',
        DbBackend::Postgres => '"',
        DbBackend::Sqlite => '"',
    }
}

/// An identifier wrapped in the backend's quote characters.
pub open spec fn spec_quoted(name: Seq<char>, b: DbBackend) -> Seq<char> {
    seq![spec_quote(b)] + name + seq![spec_quote(b)]
}

/// `"table"."column"`, both parts quoted.
pub open spec fn spec_col_ref(c: ColRef, b: DbBackend) -> Seq<char> {
    spec_quoted(c.table@, b) + seq!['.'] + spec_quoted(c.column@, b)
}

/// The text of one WHERE conjunct.
pub open spec fn spec_cond(c: Cond, b: DbBackend) -> Seq<char> {
    match c {
        Cond::ColEq(col, v) => spec_col_ref(col, b) + seq![' ', '=', ' '] + spec_value_sql(v@),
        Cond::ColIsNull(col) => spec_col_ref(col, b) + seq![' ', 'I', 'S', ' ', 'N', 'U', 'L', 'L'],
    }
}

/// The conjuncts from position `i` on, each preceded by ` AND `.
pub open spec fn spec_conds_rest(cs: Seq<Cond>, b: DbBackend, i: int) -> Seq<char>
    decreases cs.len() - i,
{
    if i < 0 || i >= cs.len() {
        Seq::empty()
    } else {
        seq![' ', 'A', 'N', 'D', ' '] + spec_cond(cs[i], b) + spec_conds_rest(cs, b, i + 1)
    }
}

/// The whole WHERE clause: empty when there is no conjunct, else
/// ` WHERE c0 AND c1 AND ...`.
pub open spec fn spec_where(cs: Seq<Cond>, b: DbBackend) -> Seq<char> {
    if cs.len() == 0 {
        Seq::empty()
    } else {
        seq![' ', 'W', 'H', 'E', 'R', 'E', ' '] + spec_cond(cs[0], b) + spec_conds_rest(cs, b, 1)
    }
}

/// The text of one SET assignment: `"column" = value`.
pub open spec fn spec_assign(a: Assignment, b: DbBackend) -> Seq<char> {
    spec_quoted(a.column@, b) + seq![' ', '=', ' '] + spec_value_sql(a.value@)
}

/// The assignments from position `i` on, each preceded by `, `.
pub open spec fn spec_assigns_rest(asgs: Seq<Assignment>, b: DbBackend, i: int) -> Seq<char>
    decreases asgs.len() - i,
{
    if i < 0 || i >= asgs.len() {
        Seq::empty()
    } else {
        seq![',', ' '] + spec_assign(asgs[i], b) + spec_assigns_rest(asgs, b, i + 1)
    }
}

/// The whole SET list, comma-separated.
pub open spec fn spec_assigns(asgs: Seq<Assignment>, b: DbBackend) -> Seq<char>
    recommends
        0 < asgs.len(),
{
    if asgs.len() == 0 {
        Seq::empty()
    } else {
        spec_assign(asgs[0], b) + spec_assigns_rest(asgs, b, 1)
    }
}

/// `DELETE FROM "table"` with its WHERE clause.
pub open spec fn spec_render_delete(d: DeleteStatement, b: DbBackend) -> Seq<char> {
    seq!['D', 'E', 'L', 'E', 'T', 'E', ' ', 'F', 'R', 'O', 'M', ' '] + spec_quoted(d.table@, b)
        + spec_where(d.conditions@, b)
}

/// `UPDATE "table" SET ...` with its WHERE clause.
pub open spec fn spec_render_update(u: UpdateStatement, b: DbBackend) -> Seq<char> {
    seq!['U', 'P', 'D', 'A', 'T', 'E', ' '] + spec_quoted(u.table@, b)
        + seq![' ', 'S', 'E', 'T', ' '] + spec_assigns(u.assignments@, b)
        + spec_where(u.conditions@, b)
}

/// The quoted column names from position `i` on, each preceded by `, `.
pub open spec fn spec_names_rest(names: Seq<Seq<char>>, b: DbBackend, i: int) -> Seq<char>
    decreases names.len() - i,
{
    if i < 0 || i >= names.len() {
        Seq::empty()
    } else {
        seq![',', ' '] + spec_quoted(names[i], b) + spec_names_rest(names, b, i + 1)
    }
}

/// The rendered values from position `i` on, each preceded by `, `.
pub open spec fn spec_values_rest(vs: Seq<ValueView>, i: int) -> Seq<char>
    decreases vs.len() - i,
{
    if i < 0 || i >= vs.len() {
        Seq::empty()
    } else {
        seq![',', ' '] + spec_value_sql(vs[i]) + spec_values_rest(vs, i + 1)
    }
}

/// `INSERT INTO "table" ("c0", ...) VALUES (v0, ...)`.
pub open spec fn spec_render_insert(ins: InsertStatement, b: DbBackend) -> Seq<char>
    recommends
        0 < ins.columns@.len(),
        ins.columns@.len() == ins.values@.len(),
{
    seq!['I', 'N', 'S', 'E', 'R', 'T', ' ', 'I', 'N', 'T', 'O', ' '] + spec_quoted(ins.table@, b)
        + seq![' ', '('] + (if ins.columns@.len() == 0 {
        Seq::<char>::empty()
    } else {
        spec_quoted(ins.columns@[0]@, b) + spec_names_rest(ins.columns@.map_values(|s: String| s@), b, 1)
    }) + seq![')', ' ', 'V', 'A', 'L', 'U', 'E', 'S', ' ', '('] + (if ins.values@.len() == 0 {
        Seq::<char>::empty()
    } else {
        spec_value_sql(ins.values@[0]@) + spec_values_rest(ins.values@.map_values(|v: Value| v@), 1)
    }) + seq![')']
}

/// The text of one select expression, with its alias when present.
pub open spec fn spec_select_expr(e: SelectExpr, b: DbBackend) -> Seq<char> {
    match e.alias {
        Option::Some(a) => spec_col_ref(e.col, b) + seq![' ', 'A', 'S', ' '] + spec_quoted(a@, b),
        Option::None => spec_col_ref(e.col, b),
    }
}

/// The select expressions from position `i` on, each preceded by `, `.
pub open spec fn spec_selects_rest(es: Seq<SelectExpr>, b: DbBackend, i: int) -> Seq<char>
    decreases es.len() - i,
{
    if i < 0 || i >= es.len() {
        Seq::empty()
    } else {
        seq![',', ' '] + spec_select_expr(es[i], b) + spec_selects_rest(es, b, i + 1)
    }
}

/// The text of one JOIN clause, starting with a space.
pub open spec fn spec_join(j: Join, b: DbBackend) -> Seq<char> {
    (match j.join_type {
        JoinType::Inner => seq![' ', 'I', 'N', 'N', 'E', 'R', ' ', 'J', 'O', 'I', 'N', ' '],
        JoinType::Left => seq![' ', 'L', 'E', 'F', 'T', ' ', 'J', 'O', 'I', 'N', ' '],
    }) + spec_quoted(j.table@, b) + (match j.alias {
        Option::Some(a) => seq![' ', 'A', 'S', ' '] + spec_quoted(a@, b),
        Option::None => Seq::<char>::empty(),
    }) + seq![' ', 'O', 'N', ' '] + spec_col_ref(j.on_left, b) + seq![' ', '=', ' ']
        + spec_col_ref(j.on_right, b)
}

/// The JOIN clauses from position `i` on, in declaration order.
pub open spec fn spec_joins_from(js: Seq<Join>, b: DbBackend, i: int) -> Seq<char>
    decreases js.len() - i,
{
    if i < 0 || i >= js.len() {
        Seq::empty()
    } else {
        spec_join(js[i], b) + spec_joins_from(js, b, i + 1)
    }
}

/// The text of one ORDER BY expression.
pub open spec fn spec_order_expr(o: OrderExpr, b: DbBackend) -> Seq<char> {
    spec_col_ref(o.col, b) + (match o.dir {
        OrderDir::Asc => seq![' ', 'A', 'S', 'C'],
        OrderDir::Desc => seq![' ', 'D', 'E', 'S', 'C'],
    })
}

/// The ORDER BY expressions from position `i` on, each preceded by `, `.
pub open spec fn spec_orders_rest(os: Seq<OrderExpr>, b: DbBackend, i: int) -> Seq<char>
    decreases os.len() - i,
{
    if i < 0 || i >= os.len() {
        Seq::empty()
    } else {
        seq![',', ' '] + spec_order_expr(os[i], b) + spec_orders_rest(os, b, i + 1)
    }
}

/// The whole ORDER BY clause: empty when there is no expression.
pub open spec fn spec_order_by(os: Seq<OrderExpr>, b: DbBackend) -> Seq<char> {
    if os.len() == 0 {
        Seq::empty()
    } else {
        seq![' ', 'O', 'R', 'D', 'E', 'R', ' ', 'B', 'Y', ' '] + spec_order_expr(os[0], b)
            + spec_orders_rest(os, b, 1)
    }
}

/// `SELECT ... FROM "table"` with joins, WHERE and ORDER BY.
pub open spec fn spec_render_select(s: SelectStatement, b: DbBackend) -> Seq<char>
    recommends
        0 < s.selects@.len(),
{
    seq!['S', 'E', 'L', 'E', 'C', 'T', ' '] + (if s.selects@.len() == 0 {
        Seq::<char>::empty()
    } else {
        spec_select_expr(s.selects@[0], b) + spec_selects_rest(s.selects@, b, 1)
    }) + seq![' ', 'F', 'R', 'O', 'M', ' '] + spec_quoted(s.from@, b)
        + spec_joins_from(s.joins@, b, 0) + spec_where(s.conditions@, b)
        + spec_order_by(s.order_by@, b)
}

/// Anything that renders itself into a backend-specific [`Statement`].
/// `spec_build` is the rendered text; `build` produces exactly it.
pub trait StatementBuilder {
    spec fn spec_build(&self, backend: DbBackend) -> Seq<char>;

    fn build(&self, backend: DbBackend) -> (s: Statement)
        ensures
            s.sql@ == self.spec_build(backend),
            s.backend == backend,
    ;
}

} // verus!
