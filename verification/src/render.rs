//! The executable statement renderer: every function appends to a
//! growing string and is proved to produce exactly the text that the
//! spec-level rendering in [`crate::statement`] defines.

use vstd::prelude::*;
use vstd::string::StringExecFns;
use crate::value::{Value, push_value};
use crate::statement::{
    DbBackend, Statement, ColRef, Cond, JoinType, Join, SelectExpr, OrderDir, OrderExpr,
    DeleteStatement, Assignment, UpdateStatement, InsertStatement, SelectStatement,
    StatementBuilder, spec_quote, spec_quoted, spec_col_ref, spec_cond, spec_conds_rest,
    spec_where, spec_assign, spec_assigns_rest, spec_assigns, spec_render_delete,
    spec_render_update, spec_names_rest, spec_values_rest, spec_render_insert,
    spec_select_expr, spec_selects_rest, spec_join, spec_joins_from, spec_order_expr,
    spec_orders_rest, spec_order_by, spec_render_select,
};

verus! {

fn push_quote(out: &mut String, b: DbBackend)
    ensures
        final(out)@ == old(out)@ + seq![spec_quote(b)],
{
    match b {
        DbBackend::MySql => {
            proof {
                reveal_strlit("`");
                assert("`"@ =~= seq![spec_quote(b)]);
            }
            out.append("`");
        },
        DbBackend::Postgres => {
            proof {
                reveal_strlit("\"");
                assert("\""@ =~= seq![spec_quote(b)]);
            }
            out.append("\"");
        },
        DbBackend::Sqlite => {
            proof {
                reveal_strlit("\"");
                assert("\""@ =~= seq![spec_quote(b)]);
            }
            out.append("\"");
        },
    }
}

/// Appends the backend-quoted identifier `name`.
pub fn push_quoted(out: &mut String, name: &str, b: DbBackend)
    ensures
        final(out)@ == old(out)@ + spec_quoted(name@, b),
{
    push_quote(out, b);
    out.append(name);
    push_quote(out, b);
    proof {
        assert(out@ =~= old(out)@ + spec_quoted(name@, b));
    }
}

/// Appends `"table"."column"`.
pub fn push_col_ref(out: &mut String, c: &ColRef, b: DbBackend)
    ensures
        final(out)@ == old(out)@ + spec_col_ref(*c, b),
{
    push_quoted(out, c.table.as_str(), b);
    proof {
        reveal_strlit(".");
        assert("."@ =~= seq!['.']);
    }
    out.append(".");
    push_quoted(out, c.column.as_str(), b);
    proof {
        assert(out@ =~= old(out)@ + spec_col_ref(*c, b));
    }
}

/// Appends one WHERE conjunct.
pub fn push_cond(out: &mut String, c: &Cond, b: DbBackend)
    ensures
        final(out)@ == old(out)@ + spec_cond(*c, b),
{
    match c {
        Cond::ColEq(col, v) => {
            push_col_ref(out, col, b);
            proof {
                reveal_strlit(" = ");
                assert(" = "@ =~= seq![' ', '=', ' ']);
            }
            out.append(" = ");
            push_value(out, v);
            proof {
                assert(out@ =~= old(out)@ + spec_cond(*c, b));
            }
        },
        Cond::ColIsNull(col) => {
            push_col_ref(out, col, b);
            proof {
                reveal_strlit(" IS NULL");
                assert(" IS NULL"@ =~= seq![' ', 'I', 'S', ' ', 'N', 'U', 'L', 'L']);
            }
            out.append(" IS NULL");
            proof {
                assert(out@ =~= old(out)@ + spec_cond(*c, b));
            }
        },
    }
}

fn push_conds_rest(out: &mut String, cs: &Vec<Cond>, b: DbBackend, i: usize)
    requires
        i <= cs@.len(),
    ensures
        final(out)@ == old(out)@ + spec_conds_rest(cs@, b, i as int),
    decreases cs@.len() - i,
{
    if i < cs.len() {
        proof {
            reveal_strlit(" AND ");
            assert(" AND "@ =~= seq![' ', 'A', 'N', 'D', ' ']);
        }
        out.append(" AND ");
        push_cond(out, &cs[i], b);
        push_conds_rest(out, cs, b, i + 1);
        proof {
            assert(out@ =~= old(out)@ + spec_conds_rest(cs@, b, i as int));
        }
    }
}

/// Appends the whole WHERE clause (nothing when there is no conjunct).
pub fn push_where(out: &mut String, cs: &Vec<Cond>, b: DbBackend)
    ensures
        final(out)@ == old(out)@ + spec_where(cs@, b),
{
    if cs.len() > 0 {
        proof {
            reveal_strlit(" WHERE ");
            assert(" WHERE "@ =~= seq![' ', 'W', 'H', 'E', 'R', 'E', ' ']);
        }
        out.append(" WHERE ");
        push_cond(out, &cs[0], b);
        push_conds_rest(out, cs, b, 1);
        proof {
            assert(out@ =~= old(out)@ + spec_where(cs@, b));
        }
    }
}

fn push_assign(out: &mut String, a: &Assignment, b: DbBackend)
    ensures
        final(out)@ == old(out)@ + spec_assign(*a, b),
{
    push_quoted(out, a.column.as_str(), b);
    proof {
        reveal_strlit(" = ");
        assert(" = "@ =~= seq![' ', '=', ' ']);
    }
    out.append(" = ");
    push_value(out, &a.value);
    proof {
        assert(out@ =~= old(out)@ + spec_assign(*a, b));
    }
}

fn push_assigns_rest(out: &mut String, asgs: &Vec<Assignment>, b: DbBackend, i: usize)
    requires
        i <= asgs@.len(),
    ensures
        final(out)@ == old(out)@ + spec_assigns_rest(asgs@, b, i as int),
    decreases asgs@.len() - i,
{
    if i < asgs.len() {
        proof {
            reveal_strlit(", ");
            assert(", "@ =~= seq![',', ' ']);
        }
        out.append(", ");
        push_assign(out, &asgs[i], b);
        push_assigns_rest(out, asgs, b, i + 1);
        proof {
            assert(out@ =~= old(out)@ + spec_assigns_rest(asgs@, b, i as int));
        }
    }
}

fn push_assigns(out: &mut String, asgs: &Vec<Assignment>, b: DbBackend)
    ensures
        final(out)@ == old(out)@ + spec_assigns(asgs@, b),
{
    if asgs.len() > 0 {
        push_assign(out, &asgs[0], b);
        push_assigns_rest(out, asgs, b, 1);
        proof {
            assert(out@ =~= old(out)@ + spec_assigns(asgs@, b));
        }
    }
}

/// Renders a logical DELETE for the given backend.
pub fn render_delete(d: &DeleteStatement, b: DbBackend) -> (s: String)
    ensures
        s@ == spec_render_delete(*d, b),
{
    let mut out = String::new();
    proof {
        reveal_strlit("DELETE FROM ");
        assert("DELETE FROM "@ =~= seq![
            'D', 'E', 'L', 'E', 'T', 'E', ' ', 'F', 'R', 'O', 'M', ' ',
        ]);
    }
    out.append("DELETE FROM ");
    push_quoted(&mut out, d.table.as_str(), b);
    push_where(&mut out, &d.conditions, b);
    proof {
        assert(out@ =~= spec_render_delete(*d, b));
    }
    out
}

/// Renders a logical UPDATE for the given backend.
pub fn render_update(u: &UpdateStatement, b: DbBackend) -> (s: String)
    ensures
        s@ == spec_render_update(*u, b),
{
    let mut out = String::new();
    proof {
        reveal_strlit("UPDATE ");
        reveal_strlit(" SET ");
        assert("UPDATE "@ =~= seq!['U', 'P', 'D', 'A', 'T', 'E', ' ']);
        assert(" SET "@ =~= seq![' ', 'S', 'E', 'T', ' ']);
    }
    out.append("UPDATE ");
    push_quoted(&mut out, u.table.as_str(), b);
    out.append(" SET ");
    push_assigns(&mut out, &u.assignments, b);
    push_where(&mut out, &u.conditions, b);
    proof {
        assert(out@ =~= spec_render_update(*u, b));
    }
    out
}

fn push_names_rest(out: &mut String, names: &Vec<String>, b: DbBackend, i: usize)
    requires
        i <= names@.len(),
    ensures
        final(out)@ == old(out)@ + spec_names_rest(
            names@.map_values(|s: String| s@),
            b,
            i as int,
        ),
    decreases names@.len() - i,
{
    if i < names.len() {
        proof {
            reveal_strlit(", ");
            assert(", "@ =~= seq![',', ' ']);
        }
        out.append(", ");
        push_quoted(out, names[i].as_str(), b);
        push_names_rest(out, names, b, i + 1);
        proof {
            assert(names@.map_values(|s: String| s@)[i as int] == names@[i as int]@);
            assert(out@ =~= old(out)@ + spec_names_rest(
                names@.map_values(|s: String| s@),
                b,
                i as int,
            ));
        }
    }
}

fn push_values_rest(out: &mut String, vs: &Vec<Value>, i: usize)
    requires
        i <= vs@.len(),
    ensures
        final(out)@ == old(out)@ + spec_values_rest(vs@.map_values(|v: Value| v@), i as int),
    decreases vs@.len() - i,
{
    if i < vs.len() {
        proof {
            reveal_strlit(", ");
            assert(", "@ =~= seq![',', ' ']);
        }
        out.append(", ");
        push_value(out, &vs[i]);
        push_values_rest(out, vs, i + 1);
        proof {
            assert(vs@.map_values(|v: Value| v@)[i as int] == vs@[i as int]@);
            assert(out@ =~= old(out)@ + spec_values_rest(
                vs@.map_values(|v: Value| v@),
                i as int,
            ));
        }
    }
}

/// Renders a logical INSERT for the given backend.
pub fn render_insert(ins: &InsertStatement, b: DbBackend) -> (s: String)
    requires
        0 < ins.columns@.len(),
        ins.columns@.len() == ins.values@.len(),
    ensures
        s@ == spec_render_insert(*ins, b),
{
    let mut out = String::new();
    proof {
        reveal_strlit("INSERT INTO ");
        reveal_strlit(" (");
        reveal_strlit(") VALUES (");
        reveal_strlit(")");
        assert("INSERT INTO "@ =~= seq![
            'I', 'N', 'S', 'E', 'R', 'T', ' ', 'I', 'N', 'T', 'O', ' ',
        ]);
        assert(" ("@ =~= seq![' ', '(']);
        assert(") VALUES ("@ =~= seq![')', ' ', 'V', 'A', 'L', 'U', 'E', 'S', ' ', '(']);
        assert(")"@ =~= seq![')']);
    }
    out.append("INSERT INTO ");
    push_quoted(&mut out, ins.table.as_str(), b);
    out.append(" (");
    push_quoted(&mut out, ins.columns[0].as_str(), b);
    proof {
        assert(ins.columns@.map_values(|s: String| s@)[0] == ins.columns@[0]@);
    }
    push_names_rest(&mut out, &ins.columns, b, 1);
    out.append(") VALUES (");
    push_value(&mut out, &ins.values[0]);
    proof {
        assert(ins.values@.map_values(|v: Value| v@)[0] == ins.values@[0]@);
    }
    push_values_rest(&mut out, &ins.values, 1);
    out.append(")");
    proof {
        assert(out@ =~= spec_render_insert(*ins, b));
    }
    out
}

fn push_select_expr(out: &mut String, e: &SelectExpr, b: DbBackend)
    ensures
        final(out)@ == old(out)@ + spec_select_expr(*e, b),
{
    push_col_ref(out, &e.col, b);
    match &e.alias {
        Option::Some(a) => {
            proof {
                reveal_strlit(" AS ");
                assert(" AS "@ =~= seq![' ', 'A', 'S', ' ']);
            }
            out.append(" AS ");
            push_quoted(out, a.as_str(), b);
            proof {
                assert(out@ =~= old(out)@ + spec_select_expr(*e, b));
            }
        },
        Option::None => {
            proof {
                assert(out@ =~= old(out)@ + spec_select_expr(*e, b));
            }
        },
    }
}

fn push_selects_rest(out: &mut String, es: &Vec<SelectExpr>, b: DbBackend, i: usize)
    requires
        i <= es@.len(),
    ensures
        final(out)@ == old(out)@ + spec_selects_rest(es@, b, i as int),
    decreases es@.len() - i,
{
    if i < es.len() {
        proof {
            reveal_strlit(", ");
            assert(", "@ =~= seq![',', ' ']);
        }
        out.append(", ");
        push_select_expr(out, &es[i], b);
        push_selects_rest(out, es, b, i + 1);
        proof {
            assert(out@ =~= old(out)@ + spec_selects_rest(es@, b, i as int));
        }
    }
}

#[verifier::rlimit(60)]
fn push_join(out: &mut String, j: &Join, b: DbBackend)
    ensures
        final(out)@ == old(out)@ + spec_join(*j, b),
{
    match j.join_type {
        JoinType::Inner => {
            proof {
                reveal_strlit(" INNER JOIN ");
                assert(" INNER JOIN "@ =~= seq![
                    ' ', 'I', 'N', 'N', 'E', 'R', ' ', 'J', 'O', 'I', 'N', ' ',
                ]);
            }
            out.append(" INNER JOIN ");
        },
        JoinType::Left => {
            proof {
                reveal_strlit(" LEFT JOIN ");
                assert(" LEFT JOIN "@ =~= seq![
                    ' ', 'L', 'E', 'F', 'T', ' ', 'J', 'O', 'I', 'N', ' ',
                ]);
            }
            out.append(" LEFT JOIN ");
        },
    }
    push_quoted(out, j.table.as_str(), b);
    match &j.alias {
        Option::Some(a) => {
            proof {
                reveal_strlit(" AS ");
                assert(" AS "@ =~= seq![' ', 'A', 'S', ' ']);
            }
            out.append(" AS ");
            push_quoted(out, a.as_str(), b);
        },
        Option::None => {},
    }
    proof {
        reveal_strlit(" ON ");
        reveal_strlit(" = ");
        assert(" ON "@ =~= seq![' ', 'O', 'N', ' ']);
        assert(" = "@ =~= seq![' ', '=', ' ']);
    }
    out.append(" ON ");
    push_col_ref(out, &j.on_left, b);
    out.append(" = ");
    push_col_ref(out, &j.on_right, b);
    proof {
        assert(out@ =~= old(out)@ + spec_join(*j, b));
    }
}

fn push_joins_from(out: &mut String, js: &Vec<Join>, b: DbBackend, i: usize)
    requires
        i <= js@.len(),
    ensures
        final(out)@ == old(out)@ + spec_joins_from(js@, b, i as int),
    decreases js@.len() - i,
{
    if i < js.len() {
        push_join(out, &js[i], b);
        push_joins_from(out, js, b, i + 1);
        proof {
            assert(out@ =~= old(out)@ + spec_joins_from(js@, b, i as int));
        }
    }
}

fn push_order_expr(out: &mut String, o: &OrderExpr, b: DbBackend)
    ensures
        final(out)@ == old(out)@ + spec_order_expr(*o, b),
{
    push_col_ref(out, &o.col, b);
    match o.dir {
        OrderDir::Asc => {
            proof {
                reveal_strlit(" ASC");
                assert(" ASC"@ =~= seq![' ', 'A', 'S', 'C']);
            }
            out.append(" ASC");
        },
        OrderDir::Desc => {
            proof {
                reveal_strlit(" DESC");
                assert(" DESC"@ =~= seq![' ', 'D', 'E', 'S', 'C']);
            }
            out.append(" DESC");
        },
    }
    proof {
        assert(out@ =~= old(out)@ + spec_order_expr(*o, b));
    }
}

fn push_orders_rest(out: &mut String, os: &Vec<OrderExpr>, b: DbBackend, i: usize)
    requires
        i <= os@.len(),
    ensures
        final(out)@ == old(out)@ + spec_orders_rest(os@, b, i as int),
    decreases os@.len() - i,
{
    if i < os.len() {
        proof {
            reveal_strlit(", ");
            assert(", "@ =~= seq![',', ' ']);
        }
        out.append(", ");
        push_order_expr(out, &os[i], b);
        push_orders_rest(out, os, b, i + 1);
        proof {
            assert(out@ =~= old(out)@ + spec_orders_rest(os@, b, i as int));
        }
    }
}

fn push_order_by(out: &mut String, os: &Vec<OrderExpr>, b: DbBackend)
    ensures
        final(out)@ == old(out)@ + spec_order_by(os@, b),
{
    if os.len() > 0 {
        proof {
            reveal_strlit(" ORDER BY ");
            assert(" ORDER BY "@ =~= seq![' ', 'O', 'R', 'D', 'E', 'R', ' ', 'B', 'Y', ' ']);
        }
        out.append(" ORDER BY ");
        push_order_expr(out, &os[0], b);
        push_orders_rest(out, os, b, 1);
        proof {
            assert(out@ =~= old(out)@ + spec_order_by(os@, b));
        }
    }
}

/// Renders a logical SELECT for the given backend.
pub fn render_select(s: &SelectStatement, b: DbBackend) -> (r: String)
    ensures
        r@ == spec_render_select(*s, b),
{
    let mut out = String::new();
    proof {
        reveal_strlit("SELECT ");
        reveal_strlit(" FROM ");
        assert("SELECT "@ =~= seq!['S', 'E', 'L', 'E', 'C', 'T', ' ']);
        assert(" FROM "@ =~= seq![' ', 'F', 'R', 'O', 'M', ' ']);
    }
    out.append("SELECT ");
    if s.selects.len() > 0 {
        push_select_expr(&mut out, &s.selects[0], b);
        push_selects_rest(&mut out, &s.selects, b, 1);
    }
    out.append(" FROM ");
    push_quoted(&mut out, s.from.as_str(), b);
    push_joins_from(&mut out, &s.joins, b, 0);
    push_where(&mut out, &s.conditions, b);
    push_order_by(&mut out, &s.order_by, b);
    proof {
        assert(out@ =~= spec_render_select(*s, b));
    }
    out
}

impl StatementBuilder for DeleteStatement {
    open spec fn spec_build(&self, backend: DbBackend) -> Seq<char> {
        spec_render_delete(*self, backend)
    }

    fn build(&self, backend: DbBackend) -> (s: Statement) {
        let sql = render_delete(self, backend);
        Statement { sql, backend }
    }
}

impl StatementBuilder for UpdateStatement {
    open spec fn spec_build(&self, backend: DbBackend) -> Seq<char> {
        spec_render_update(*self, backend)
    }

    fn build(&self, backend: DbBackend) -> (s: Statement) {
        let sql = render_update(self, backend);
        Statement { sql, backend }
    }
}

impl StatementBuilder for InsertStatement {
    open spec fn spec_build(&self, backend: DbBackend) -> Seq<char> {
        if 0 < self.columns@.len() && self.columns@.len() == self.values@.len() {
            spec_render_insert(*self, backend)
        } else {
            Seq::empty()
        }
    }

    fn build(&self, backend: DbBackend) -> (s: Statement) {
        if self.columns.len() > 0 && self.columns.len() == self.values.len() {
            let sql = render_insert(self, backend);
            Statement { sql, backend }
        } else {
            let sql = String::new();
            Statement { sql, backend }
        }
    }
}

impl StatementBuilder for SelectStatement {
    open spec fn spec_build(&self, backend: DbBackend) -> Seq<char> {
        spec_render_select(*self, backend)
    }

    fn build(&self, backend: DbBackend) -> (s: Statement) {
        let sql = render_select(self, backend);
        Statement { sql, backend }
    }
}

} // verus!
