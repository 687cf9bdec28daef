//! Executor behaviour against a scripted connection: the soft-delete
//! rewrite on the delete path, pass-through of connection results and
//! errors, and select decoding end to end.

use ormkit::connection::{ConnectionTrait, DbErr, ExecResult, Row};
use ormkit::delete::{delete_many, delete_one, Deleter, DeleteResult};
use ormkit::entity::{ColumnDef, EntityDef, Model, SoftDeletePolicy};
use ormkit::insert::{insert, Inserter};
use ormkit::query::find;
use ormkit::statement::{ColRef, Cond, DbBackend, DeleteStatement, Statement};
use ormkit::update::{update, Updater};
use ormkit::value::{ColumnType, Value};

/// A scripted connection: records every statement it is handed and
/// returns the configured outcome.
struct MockConn {
    backend: DbBackend,
    executed: Vec<String>,
    rows_affected: u64,
    last_insert_id: u64,
    rows: Vec<Row>,
    fail_with: Option<String>,
}

impl MockConn {
    fn new(backend: DbBackend) -> MockConn {
        MockConn {
            backend,
            executed: Vec::new(),
            rows_affected: 1,
            last_insert_id: 0,
            rows: Vec::new(),
            fail_with: None,
        }
    }
}

impl ConnectionTrait for MockConn {
    fn get_database_backend(&self) -> DbBackend {
        self.backend
    }

    fn execute(&mut self, stmt: Statement) -> Result<ExecResult, DbErr> {
        self.executed.push(stmt.sql);
        match &self.fail_with {
            Some(msg) => Err(DbErr::Conn(msg.clone())),
            None => Ok(ExecResult {
                rows_affected: self.rows_affected,
                last_insert_id: self.last_insert_id,
            }),
        }
    }

    fn query_all(&mut self, stmt: Statement) -> Result<Vec<Row>, DbErr> {
        self.executed.push(stmt.sql);
        match &self.fail_with {
            Some(msg) => Err(DbErr::Conn(msg.clone())),
            None => Ok(std::mem::take(&mut self.rows)),
        }
    }

    fn query_one(&mut self, stmt: Statement) -> Result<Option<Row>, DbErr> {
        self.executed.push(stmt.sql);
        match &self.fail_with {
            Some(msg) => Err(DbErr::Conn(msg.clone())),
            None => Ok(std::mem::take(&mut self.rows).into_iter().next()),
        }
    }
}

fn col(name: &str, ty: ColumnType, nullable: bool) -> ColumnDef {
    ColumnDef { name: name.to_string(), col_type: ty, nullable }
}

fn soft_entity() -> EntityDef {
    EntityDef {
        table: "parent".to_string(),
        columns: vec![
            col("id", ColumnType::Integer, false),
            col("name", ColumnType::Text, false),
            col("deleted_at", ColumnType::Text, true),
        ],
        primary_key: vec![0],
        soft_delete: Some(SoftDeletePolicy {
            column: 2,
            deleted_value: Value::Text("2022-05-05 12:00:00".to_string()),
        }),
    }
}

fn plain_entity() -> EntityDef {
    EntityDef {
        table: "parent".to_string(),
        columns: vec![
            col("id", ColumnType::Integer, false),
            col("name", ColumnType::Text, false),
            col("deleted_at", ColumnType::Text, true),
        ],
        primary_key: vec![0],
        soft_delete: None,
    }
}

fn id_cond(id: i64) -> Cond {
    Cond::ColEq(
        ColRef { table: "parent".to_string(), column: "id".to_string() },
        Value::Int(id),
    )
}

#[test]
fn delete_many_soft_deleting_entity_issues_update() {
    let mut db = MockConn::new(DbBackend::MySql);
    db.rows_affected = 3;
    let res = delete_many(soft_entity()).filter(id_cond(11)).exec(&mut db).unwrap();
    assert_eq!(res.rows_affected, 3);
    assert_eq!(db.executed.len(), 1);
    assert_eq!(
        db.executed[0],
        "UPDATE `parent` SET `deleted_at` = '2022-05-05 12:00:00' WHERE `parent`.`id` = 11"
    );
}

#[test]
fn delete_many_plain_entity_issues_delete() {
    let mut db = MockConn::new(DbBackend::MySql);
    db.rows_affected = 2;
    let res = delete_many(plain_entity()).filter(id_cond(11)).exec(&mut db).unwrap();
    assert_eq!(res.rows_affected, 2);
    assert_eq!(db.executed[0], "DELETE FROM `parent` WHERE `parent`.`id` = 11");
}

#[test]
fn delete_many_without_filter_touches_every_row() {
    let mut db = MockConn::new(DbBackend::MySql);
    delete_many(soft_entity()).exec(&mut db).unwrap();
    assert_eq!(
        db.executed[0],
        "UPDATE `parent` SET `deleted_at` = '2022-05-05 12:00:00'"
    );
    let mut db2 = MockConn::new(DbBackend::MySql);
    delete_many(plain_entity()).exec(&mut db2).unwrap();
    assert_eq!(db2.executed[0], "DELETE FROM `parent`");
}

#[test]
fn delete_one_keys_on_the_model() {
    let model = Model {
        values: vec![Value::Int(7), Value::Text("a".to_string()), Value::Null],
    };
    let mut db = MockConn::new(DbBackend::MySql);
    delete_one(plain_entity(), &model).exec(&mut db).unwrap();
    assert_eq!(db.executed[0], "DELETE FROM `parent` WHERE `parent`.`id` = 7");

    let mut db2 = MockConn::new(DbBackend::MySql);
    delete_one(soft_entity(), &model).exec(&mut db2).unwrap();
    assert_eq!(
        db2.executed[0],
        "UPDATE `parent` SET `deleted_at` = '2022-05-05 12:00:00' WHERE `parent`.`id` = 7"
    );
}

#[test]
fn deleter_builds_for_the_connections_backend() {
    let stmt = DeleteStatement { table: "t".to_string(), conditions: Vec::new() };
    let mut db = MockConn::new(DbBackend::Postgres);
    db.rows_affected = 5;
    let res: DeleteResult = Deleter::new(stmt).exec(&mut db).unwrap();
    assert_eq!(res.rows_affected, 5);
    assert_eq!(db.executed[0], "DELETE FROM \"t\"");
}

#[test]
fn connection_errors_surface_unchanged() {
    let mut db = MockConn::new(DbBackend::MySql);
    db.fail_with = Some("deadlock".to_string());
    let err = delete_many(soft_entity()).exec(&mut db).unwrap_err();
    match err {
        DbErr::Conn(msg) => assert_eq!(msg, "deadlock"),
        other => panic!("expected the connection error unchanged, got {:?}", other),
    }
}

#[test]
fn insert_exec_reports_generated_key() {
    let entity = plain_entity();
    let model = Model {
        values: vec![Value::Int(7), Value::Text("a".to_string()), Value::Null],
    };
    let mut db = MockConn::new(DbBackend::MySql);
    db.last_insert_id = 42;
    let stmt = insert(&entity, &model.into_active_model());
    let res = Inserter::new(stmt).exec(&mut db).unwrap();
    assert_eq!(res.last_insert_id, 42);
    assert_eq!(
        db.executed[0],
        "INSERT INTO `parent` (`id`, `name`, `deleted_at`) VALUES (7, 'a', NULL)"
    );
}

#[test]
fn insert_with_no_columns_is_a_build_error() {
    let stmt = ormkit::statement::InsertStatement {
        table: "parent".to_string(),
        columns: Vec::new(),
        values: Vec::new(),
    };
    let mut db = MockConn::new(DbBackend::MySql);
    match Inserter::new(stmt).exec(&mut db) {
        Err(DbErr::Build(_)) => {}
        other => panic!("expected a build error, got {:?}", other),
    }
    assert!(db.executed.is_empty());
}

#[test]
fn update_sets_dirty_non_key_fields() {
    let entity = plain_entity();
    let model = Model {
        values: vec![Value::Int(7), Value::Text("b".to_string()), Value::Null],
    };
    let mut db = MockConn::new(DbBackend::MySql);
    db.rows_affected = 1;
    let stmt = update(&entity, &model.into_active_model());
    let res = Updater::new(stmt).exec(&mut db).unwrap();
    assert_eq!(res.rows_affected, 1);
    assert_eq!(
        db.executed[0],
        "UPDATE `parent` SET `name` = 'b', `deleted_at` = NULL WHERE `parent`.`id` = 7"
    );
}

#[test]
fn select_all_decodes_returned_rows() {
    let entity = plain_entity();
    let mut db = MockConn::new(DbBackend::MySql);
    db.rows = vec![Row {
        columns: vec!["id".to_string(), "name".to_string(), "deleted_at".to_string()],
        values: vec![Value::Int(1), Value::Text("x".to_string()), Value::Null],
    }];
    let ms = find(entity).all(&mut db).unwrap();
    assert_eq!(ms.len(), 1);
    assert_eq!(ms[0].values[0], Value::Int(1));
    assert_eq!(
        db.executed[0],
        "SELECT `parent`.`id`, `parent`.`name`, `parent`.`deleted_at` FROM `parent`"
    );
}

#[test]
fn select_one_decodes_at_most_one_row() {
    let entity = plain_entity();
    let mut db = MockConn::new(DbBackend::MySql);
    db.rows = vec![Row {
        columns: vec!["id".to_string(), "name".to_string(), "deleted_at".to_string()],
        values: vec![Value::Int(9), Value::Text("y".to_string()), Value::Null],
    }];
    let m = find(entity).one(&mut db).unwrap().expect("one row was returned");
    assert_eq!(m.values[0], Value::Int(9));

    let mut empty_db = MockConn::new(DbBackend::MySql);
    assert!(find(plain_entity()).one(&mut empty_db).unwrap().is_none());
}

#[test]
fn find_filters_soft_deleted_rows() {
    let mut db = MockConn::new(DbBackend::MySql);
    let _ = find(soft_entity()).all(&mut db).unwrap();
    assert_eq!(
        db.executed[0],
        "SELECT `parent`.`id`, `parent`.`name`, `parent`.`deleted_at` FROM `parent` WHERE `parent`.`deleted_at` IS NULL"
    );
}
