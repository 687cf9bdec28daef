//! Rendering of values and whole statements: literals, escaping,
//! dialects, and ORDER BY.

use ormkit::entity::{ColumnDef, EntityDef};
use ormkit::query::find;
use ormkit::statement::{ColRef, Cond, DbBackend, DeleteStatement, UpdateStatement, Assignment, StatementBuilder};
use ormkit::value::{push_value, ColumnType, Value};

fn rendered(v: Value) -> String {
    let mut s = String::new();
    push_value(&mut s, &v);
    s
}

#[test]
fn value_literals() {
    assert_eq!(rendered(Value::Null), "NULL");
    assert_eq!(rendered(Value::Bool(true)), "TRUE");
    assert_eq!(rendered(Value::Bool(false)), "FALSE");
    assert_eq!(rendered(Value::Int(0)), "0");
    assert_eq!(rendered(Value::Int(11)), "11");
    assert_eq!(rendered(Value::Int(-42)), "-42");
    assert_eq!(rendered(Value::Int(i64::MAX)), "9223372036854775807");
    assert_eq!(rendered(Value::Int(i64::MIN)), "-9223372036854775808");
    assert_eq!(rendered(Value::Text("plain".to_string())), "'plain'");
    assert_eq!(rendered(Value::Text("O'Brien".to_string())), "'O''Brien'");
    assert_eq!(rendered(Value::Text("".to_string())), "''");
    assert_eq!(rendered(Value::Bytes(vec![])), "x''");
    assert_eq!(rendered(Value::Bytes(vec![0, 1, 0xAB, 0xFF])), "x'0001ABFF'");
}

#[test]
fn delete_statement_dialects() {
    let d = DeleteStatement {
        table: "log".to_string(),
        conditions: vec![Cond::ColIsNull(ColRef {
            table: "log".to_string(),
            column: "seen_at".to_string(),
        })],
    };
    assert_eq!(
        d.build(DbBackend::MySql).sql,
        "DELETE FROM `log` WHERE `log`.`seen_at` IS NULL"
    );
    assert_eq!(
        d.build(DbBackend::Postgres).sql,
        "DELETE FROM \"log\" WHERE \"log\".\"seen_at\" IS NULL"
    );
    assert_eq!(
        d.build(DbBackend::Sqlite).sql,
        "DELETE FROM \"log\" WHERE \"log\".\"seen_at\" IS NULL"
    );
}

#[test]
fn update_statement_text() {
    let u = UpdateStatement {
        table: "log".to_string(),
        assignments: vec![
            Assignment { column: "level".to_string(), value: Value::Int(3) },
            Assignment { column: "msg".to_string(), value: Value::Text("hi".to_string()) },
        ],
        conditions: vec![Cond::ColEq(
            ColRef { table: "log".to_string(), column: "id".to_string() },
            Value::Int(9),
        )],
    };
    assert_eq!(
        u.build(DbBackend::MySql).sql,
        "UPDATE `log` SET `level` = 3, `msg` = 'hi' WHERE `log`.`id` = 9"
    );
}

#[test]
fn order_by_renders_after_where() {
    let entity = EntityDef {
        table: "m".to_string(),
        columns: vec![
            ColumnDef { name: "id".to_string(), col_type: ColumnType::Integer, nullable: false },
            ColumnDef { name: "time".to_string(), col_type: ColumnType::Text, nullable: true },
        ],
        primary_key: vec![0],
        soft_delete: None,
    };
    let stmt = find(entity)
        .filter(Cond::ColEq(
            ColRef { table: "m".to_string(), column: "id".to_string() },
            Value::Int(1),
        ))
        .order_by_asc(ColRef { table: "m".to_string(), column: "time".to_string() })
        .build(DbBackend::MySql);
    assert_eq!(
        stmt.sql,
        "SELECT `m`.`id`, `m`.`time` FROM `m` WHERE `m`.`id` = 1 ORDER BY `m`.`time` ASC"
    );
}
