//! Generated SQL for relation queries over a soft-deleting parent with
//! one soft-deleting child entity and one plain child entity.

use ormkit::entity::{ColumnDef, EntityDef, Linked, Model, RelationDef, RelationKind, SoftDeletePolicy};
use ormkit::query::{find, find_related};
use ormkit::statement::{ColRef, Cond, DbBackend};
use ormkit::value::{ColumnType, Value};

fn col(name: &str, ty: ColumnType, nullable: bool) -> ColumnDef {
    ColumnDef { name: name.to_string(), col_type: ty, nullable }
}

fn parent() -> EntityDef {
    EntityDef {
        table: "parent".to_string(),
        columns: vec![
            col("id", ColumnType::Integer, false),
            col("name", ColumnType::Text, false),
            col("created_at", ColumnType::Text, true),
            col("updated_at", ColumnType::Text, true),
            col("deleted_at", ColumnType::Text, true),
        ],
        primary_key: vec![0],
        soft_delete: Some(SoftDeletePolicy {
            column: 4,
            deleted_value: Value::Text("2022-05-05 12:00:00".to_string()),
        }),
    }
}

fn child_columns() -> Vec<ColumnDef> {
    vec![
        col("id", ColumnType::Integer, false),
        col("parent_id", ColumnType::Integer, false),
        col("name", ColumnType::Text, false),
        col("created_at", ColumnType::Text, true),
        col("updated_at", ColumnType::Text, true),
        col("deleted_at", ColumnType::Text, true),
    ]
}

fn soft_delete_child() -> EntityDef {
    EntityDef {
        table: "soft_delete_child".to_string(),
        columns: child_columns(),
        primary_key: vec![0],
        soft_delete: Some(SoftDeletePolicy {
            column: 5,
            deleted_value: Value::Text("2022-05-05 12:00:00".to_string()),
        }),
    }
}

fn child() -> EntityDef {
    EntityDef {
        table: "child".to_string(),
        columns: child_columns(),
        primary_key: vec![0],
        soft_delete: None,
    }
}

fn parent_has_child(child_table: &str) -> RelationDef {
    RelationDef {
        kind: RelationKind::HasMany,
        from_table: "parent".to_string(),
        from_col: "id".to_string(),
        to_table: child_table.to_string(),
        to_col: "parent_id".to_string(),
    }
}

fn parent_model(id: i64) -> Model {
    Model {
        values: vec![
            Value::Int(id),
            Value::Text("".to_string()),
            Value::Null,
            Value::Null,
            Value::Null,
        ],
    }
}

fn parent_col(name: &str) -> ColRef {
    ColRef { table: "parent".to_string(), column: name.to_string() }
}

fn link_parent_to(target: EntityDef) -> Linked {
    let table = target.table.clone();
    Linked { entities: vec![parent(), target], rels: vec![parent_has_child(&table)] }
}

#[test]
fn find_related_eager() {
    let sel = find_related(&parent(), soft_delete_child(), &parent_has_child("soft_delete_child"));
    let stmt = sel
        .filter(Cond::ColEq(parent_col("id"), Value::Int(11)))
        .build(DbBackend::MySql);
    assert_eq!(
        stmt.sql,
        [
            "SELECT `soft_delete_child`.`id`, `soft_delete_child`.`parent_id`, `soft_delete_child`.`name`, `soft_delete_child`.`created_at`, `soft_delete_child`.`updated_at`, `soft_delete_child`.`deleted_at`",
            "FROM `soft_delete_child`",
            "INNER JOIN `parent` ON `parent`.`id` = `soft_delete_child`.`parent_id`",
            "WHERE `soft_delete_child`.`deleted_at` IS NULL",
            "AND `parent`.`deleted_at` IS NULL",
            "AND `parent`.`id` = 11",
        ]
        .join(" ")
    );
}

#[test]
fn find_related_lazy() {
    let model = parent_model(12);
    let stmt = model
        .find_related(&parent(), soft_delete_child(), &parent_has_child("soft_delete_child"))
        .build(DbBackend::MySql);
    assert_eq!(
        stmt.sql,
        [
            "SELECT `soft_delete_child`.`id`, `soft_delete_child`.`parent_id`, `soft_delete_child`.`name`, `soft_delete_child`.`created_at`, `soft_delete_child`.`updated_at`, `soft_delete_child`.`deleted_at`",
            "FROM `soft_delete_child`",
            "INNER JOIN `parent` ON `parent`.`id` = `soft_delete_child`.`parent_id`",
            "WHERE `soft_delete_child`.`deleted_at` IS NULL",
            "AND `parent`.`deleted_at` IS NULL",
            "AND `parent`.`id` = 12",
        ]
        .join(" ")
    );
}

#[test]
fn find_also_linked() {
    let stmt = find(parent())
        .find_also_linked(link_parent_to(soft_delete_child()))
        .build(DbBackend::MySql);
    assert_eq!(
        stmt.sql,
        [
            "SELECT `parent`.`id` AS `A_id`, `parent`.`name` AS `A_name`, `parent`.`created_at` AS `A_created_at`, `parent`.`updated_at` AS `A_updated_at`, `parent`.`deleted_at` AS `A_deleted_at`,",
            "`r0`.`id` AS `B_id`, `r0`.`parent_id` AS `B_parent_id`, `r0`.`name` AS `B_name`, `r0`.`created_at` AS `B_created_at`, `r0`.`updated_at` AS `B_updated_at`, `r0`.`deleted_at` AS `B_deleted_at`",
            "FROM `parent`",
            "LEFT JOIN `soft_delete_child` AS `r0` ON `parent`.`id` = `r0`.`parent_id`",
            "WHERE `parent`.`deleted_at` IS NULL",
            "AND `r0`.`deleted_at` IS NULL",
        ]
        .join(" ")
    );
}

#[test]
fn find_linked() {
    let model = parent_model(18);
    let stmt = model
        .find_linked(link_parent_to(soft_delete_child()))
        .build(DbBackend::MySql);
    assert_eq!(
        stmt.sql,
        [
            "SELECT `soft_delete_child`.`id`, `soft_delete_child`.`parent_id`, `soft_delete_child`.`name`, `soft_delete_child`.`created_at`, `soft_delete_child`.`updated_at`, `soft_delete_child`.`deleted_at`",
            "FROM `soft_delete_child`",
            "INNER JOIN `parent` AS `r0` ON `r0`.`id` = `soft_delete_child`.`parent_id`",
            "WHERE `soft_delete_child`.`deleted_at` IS NULL",
            "AND `r0`.`deleted_at` IS NULL",
            "AND `r0`.`id` = 18",
        ]
        .join(" ")
    );
}

#[test]
fn child_find_related_eager() {
    let sel = find_related(&parent(), child(), &parent_has_child("child"));
    let stmt = sel
        .filter(Cond::ColEq(parent_col("id"), Value::Int(11)))
        .build(DbBackend::MySql);
    assert_eq!(
        stmt.sql,
        [
            "SELECT `child`.`id`, `child`.`parent_id`, `child`.`name`, `child`.`created_at`, `child`.`updated_at`, `child`.`deleted_at`",
            "FROM `child`",
            "INNER JOIN `parent` ON `parent`.`id` = `child`.`parent_id`",
            "WHERE `parent`.`deleted_at` IS NULL",
            "AND `parent`.`id` = 11",
        ]
        .join(" ")
    );
}

#[test]
fn child_find_related_lazy() {
    let model = parent_model(12);
    let stmt = model
        .find_related(&parent(), child(), &parent_has_child("child"))
        .build(DbBackend::MySql);
    assert_eq!(
        stmt.sql,
        [
            "SELECT `child`.`id`, `child`.`parent_id`, `child`.`name`, `child`.`created_at`, `child`.`updated_at`, `child`.`deleted_at`",
            "FROM `child`",
            "INNER JOIN `parent` ON `parent`.`id` = `child`.`parent_id`",
            "WHERE `parent`.`deleted_at` IS NULL",
            "AND `parent`.`id` = 12",
        ]
        .join(" ")
    );
}

#[test]
fn child_find_also_linked() {
    let stmt = find(parent())
        .find_also_linked(link_parent_to(child()))
        .build(DbBackend::MySql);
    assert_eq!(
        stmt.sql,
        [
            "SELECT `parent`.`id` AS `A_id`, `parent`.`name` AS `A_name`, `parent`.`created_at` AS `A_created_at`, `parent`.`updated_at` AS `A_updated_at`, `parent`.`deleted_at` AS `A_deleted_at`,",
            "`r0`.`id` AS `B_id`, `r0`.`parent_id` AS `B_parent_id`, `r0`.`name` AS `B_name`, `r0`.`created_at` AS `B_created_at`, `r0`.`updated_at` AS `B_updated_at`, `r0`.`deleted_at` AS `B_deleted_at`",
            "FROM `parent`",
            "LEFT JOIN `child` AS `r0` ON `parent`.`id` = `r0`.`parent_id`",
            "WHERE `parent`.`deleted_at` IS NULL",
        ]
        .join(" ")
    );
}

#[test]
fn child_find_linked() {
    let model = parent_model(18);
    let stmt = model
        .find_linked(link_parent_to(child()))
        .build(DbBackend::MySql);
    assert_eq!(
        stmt.sql,
        [
            "SELECT `child`.`id`, `child`.`parent_id`, `child`.`name`, `child`.`created_at`, `child`.`updated_at`, `child`.`deleted_at`",
            "FROM `child`",
            "INNER JOIN `parent` AS `r0` ON `r0`.`id` = `child`.`parent_id`",
            "WHERE `r0`.`deleted_at` IS NULL",
            "AND `r0`.`id` = 18",
        ]
        .join(" ")
    );
}

#[test]
fn related_scenario_both_soft_deleting() {
    // parent(id, name, deleted_at?) and child(id, parent_id, name,
    // deleted_at?), both soft-deleting; the related query for parent 11
    // carries both soft-delete predicates and the key condition, joined
    // INNER on the declared mapping.
    let child_sd = EntityDef {
        table: "child".to_string(),
        columns: child_columns(),
        primary_key: vec![0],
        soft_delete: Some(SoftDeletePolicy {
            column: 5,
            deleted_value: Value::Text("2022-05-05 12:00:00".to_string()),
        }),
    };
    let sel = find_related(&parent(), child_sd, &parent_has_child("child"));
    let stmt = sel
        .filter(Cond::ColEq(parent_col("id"), Value::Int(11)))
        .build(DbBackend::MySql);
    assert!(stmt.sql.contains("`child`.`deleted_at` IS NULL"));
    assert!(stmt.sql.contains("`parent`.`deleted_at` IS NULL"));
    assert!(stmt.sql.contains("`parent`.`id` = 11"));
    assert!(stmt.sql.contains("INNER JOIN `parent` ON `parent`.`id` = `child`.`parent_id`"));
}

#[test]
fn self_referencing_find_linked() {
    // A self-join: metadata's nullable self-reference to its own key.
    // The same physical table appears as the base and under the alias.
    fn metadata() -> EntityDef {
        EntityDef {
            table: "metadata".to_string(),
            columns: vec![
                ColumnDef { name: "uuid".to_string(), col_type: ColumnType::Text, nullable: false },
                ColumnDef { name: "uuid_ref".to_string(), col_type: ColumnType::Text, nullable: true },
                ColumnDef { name: "time".to_string(), col_type: ColumnType::Text, nullable: true },
            ],
            primary_key: vec![0],
            soft_delete: None,
        }
    }
    let self_link = Linked {
        entities: vec![metadata(), metadata()],
        rels: vec![RelationDef {
            kind: RelationKind::BelongsTo,
            from_table: "metadata".to_string(),
            from_col: "uuid_ref".to_string(),
            to_table: "metadata".to_string(),
            to_col: "uuid".to_string(),
        }],
    };
    let model = Model {
        values: vec![
            Value::Text("u-1".to_string()),
            Value::Null,
            Value::Null,
        ],
    };
    let stmt = model.find_linked(self_link).build(DbBackend::MySql);
    assert_eq!(
        stmt.sql,
        [
            "SELECT `metadata`.`uuid`, `metadata`.`uuid_ref`, `metadata`.`time`",
            "FROM `metadata`",
            "INNER JOIN `metadata` AS `r0` ON `r0`.`uuid_ref` = `metadata`.`uuid`",
            "WHERE `r0`.`uuid` = 'u-1'",
        ]
        .join(" ")
    );
}

#[test]
fn find_also_linked_ordered_by_non_key_column() {
    // Pairs come back in the ORDER BY's order; unmatched base rows carry
    // NULLs on the aliased side, which satisfy the appended predicate
    // and decode to an absent right side.
    let stmt = find(parent())
        .find_also_linked(link_parent_to(child()))
        .order_by_asc(parent_col("created_at"))
        .build(DbBackend::MySql);
    assert!(stmt.sql.ends_with("ORDER BY `parent`.`created_at` ASC"));
    assert!(stmt.sql.contains("LEFT JOIN `child` AS `r0` ON `parent`.`id` = `r0`.`parent_id`"));
}

fn hop_entity(table: &str, fk: Option<&str>) -> EntityDef {
    let mut columns = vec![col("id", ColumnType::Integer, false)];
    if let Some(fk_name) = fk {
        columns.push(col(fk_name, ColumnType::Integer, false));
    }
    EntityDef {
        table: table.to_string(),
        columns,
        primary_key: vec![0],
        soft_delete: None,
    }
}

fn two_hop_link() -> Linked {
    Linked {
        entities: vec![
            hop_entity("a", None),
            hop_entity("b", Some("a_id")),
            hop_entity("c", Some("b_id")),
        ],
        rels: vec![
            RelationDef {
                kind: RelationKind::HasMany,
                from_table: "a".to_string(),
                from_col: "id".to_string(),
                to_table: "b".to_string(),
                to_col: "a_id".to_string(),
            },
            RelationDef {
                kind: RelationKind::HasMany,
                from_table: "b".to_string(),
                from_col: "id".to_string(),
                to_table: "c".to_string(),
                to_col: "b_id".to_string(),
            },
        ],
    }
}

#[test]
fn find_linked_two_hops_aliases_in_traversal_order() {
    let model = Model { values: vec![Value::Int(5)] };
    let stmt = model.find_linked(two_hop_link()).build(DbBackend::MySql);
    assert_eq!(
        stmt.sql,
        [
            "SELECT `c`.`id`, `c`.`b_id`",
            "FROM `c`",
            "INNER JOIN `b` AS `r0` ON `r0`.`id` = `c`.`b_id`",
            "INNER JOIN `a` AS `r1` ON `r1`.`id` = `r0`.`a_id`",
            "WHERE `r1`.`id` = 5",
        ]
        .join(" ")
    );
}

#[test]
fn find_also_linked_two_hops_aliases_in_traversal_order() {
    let stmt = find(hop_entity("a", None))
        .find_also_linked(two_hop_link())
        .build(DbBackend::MySql);
    assert_eq!(
        stmt.sql,
        [
            "SELECT `a`.`id` AS `A_id`, `r1`.`id` AS `B_id`, `r1`.`b_id` AS `B_b_id`",
            "FROM `a`",
            "LEFT JOIN `b` AS `r0` ON `a`.`id` = `r0`.`a_id`",
            "LEFT JOIN `c` AS `r1` ON `r0`.`id` = `r1`.`b_id`",
        ]
        .join(" ")
    );
}

#[test]
fn postgres_quoting() {
    let sel = find_related(&parent(), child(), &parent_has_child("child"));
    let stmt = sel.build(DbBackend::Postgres);
    assert!(stmt.sql.contains("FROM \"child\""));
    assert!(stmt.sql.contains("INNER JOIN \"parent\" ON \"parent\".\"id\" = \"child\".\"parent_id\""));
}
