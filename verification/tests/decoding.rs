//! Decoding rows into models: the insert round trip, pair decoding with
//! an absent right side, and the decode error variants.

use ormkit::connection::{DbErr, DecodeError, Row};
use ormkit::decode::{decode_model, decode_pair, decode_pairs, decode_rows};
use ormkit::entity::{ColumnDef, EntityDef, Model};
use ormkit::insert::insert;
use ormkit::value::{ColumnType, Value};

fn col(name: &str, ty: ColumnType, nullable: bool) -> ColumnDef {
    ColumnDef { name: name.to_string(), col_type: ty, nullable }
}

fn item() -> EntityDef {
    EntityDef {
        table: "item".to_string(),
        columns: vec![
            col("id", ColumnType::Integer, false),
            col("name", ColumnType::Text, false),
            col("live", ColumnType::Boolean, false),
            col("payload", ColumnType::Blob, false),
            col("note", ColumnType::Text, true),
        ],
        primary_key: vec![0],
        soft_delete: None,
    }
}

fn item_model() -> Model {
    Model {
        values: vec![
            Value::Int(7),
            Value::Text("widget".to_string()),
            Value::Bool(true),
            Value::Bytes(vec![0, 1, 254, 255]),
            Value::Null,
        ],
    }
}

#[test]
fn insert_then_decode_roundtrip() {
    // The built INSERT carries exactly the model's columns and values;
    // a row laid out that way decodes back to an equal model.
    let entity = item();
    let model = item_model();
    let stmt = insert(&entity, &model.into_active_model());
    assert_eq!(
        stmt.columns,
        vec![
            "id".to_string(),
            "name".to_string(),
            "live".to_string(),
            "payload".to_string(),
            "note".to_string(),
        ]
    );
    let row = Row { columns: stmt.columns, values: stmt.values };
    let decoded = decode_model(&entity, &row, "").unwrap();
    assert_eq!(decoded, model);
}

#[test]
fn decode_ignores_column_order_and_extras() {
    let entity = item();
    let row = Row {
        columns: vec![
            "note".to_string(),
            "extra".to_string(),
            "payload".to_string(),
            "live".to_string(),
            "name".to_string(),
            "id".to_string(),
        ],
        values: vec![
            Value::Null,
            Value::Int(99),
            Value::Bytes(vec![0, 1, 254, 255]),
            Value::Bool(true),
            Value::Text("widget".to_string()),
            Value::Int(7),
        ],
    };
    let decoded = decode_model(&entity, &row, "").unwrap();
    assert_eq!(decoded, item_model());
}

#[test]
fn decode_missing_column() {
    let entity = item();
    let row = Row {
        columns: vec!["id".to_string()],
        values: vec![Value::Int(7)],
    };
    match decode_model(&entity, &row, "") {
        Err(DbErr::Decode(DecodeError::Missing { column })) => assert_eq!(column, "name"),
        other => panic!("expected a missing-column error, got {:?}", other),
    }
}

#[test]
fn decode_type_mismatch() {
    let entity = item();
    let row = Row {
        columns: vec![
            "id".to_string(),
            "name".to_string(),
            "live".to_string(),
            "payload".to_string(),
            "note".to_string(),
        ],
        values: vec![
            Value::Int(7),
            Value::Int(8),
            Value::Bool(true),
            Value::Bytes(vec![]),
            Value::Null,
        ],
    };
    match decode_model(&entity, &row, "") {
        Err(DbErr::Decode(DecodeError::TypeMismatch { column })) => assert_eq!(column, "name"),
        other => panic!("expected a type-mismatch error, got {:?}", other),
    }
}

#[test]
fn decode_null_in_non_nullable_column() {
    let entity = item();
    let row = Row {
        columns: vec![
            "id".to_string(),
            "name".to_string(),
            "live".to_string(),
            "payload".to_string(),
            "note".to_string(),
        ],
        values: vec![
            Value::Null,
            Value::Text("widget".to_string()),
            Value::Bool(true),
            Value::Bytes(vec![]),
            Value::Null,
        ],
    };
    match decode_model(&entity, &row, "") {
        Err(DbErr::Decode(DecodeError::TypeMismatch { column })) => assert_eq!(column, "id"),
        other => panic!("expected a type-mismatch error, got {:?}", other),
    }
}

fn pair_entities() -> (EntityDef, EntityDef) {
    let left = EntityDef {
        table: "parent".to_string(),
        columns: vec![
            col("id", ColumnType::Integer, false),
            col("name", ColumnType::Text, false),
        ],
        primary_key: vec![0],
        soft_delete: None,
    };
    let right = EntityDef {
        table: "child".to_string(),
        columns: vec![
            col("id", ColumnType::Integer, true),
            col("parent_id", ColumnType::Integer, true),
        ],
        primary_key: vec![0],
        soft_delete: None,
    };
    (left, right)
}

fn pair_row(left_id: i64, right_id: Option<i64>) -> Row {
    Row {
        columns: vec![
            "A_id".to_string(),
            "A_name".to_string(),
            "B_id".to_string(),
            "B_parent_id".to_string(),
        ],
        values: vec![
            Value::Int(left_id),
            Value::Text("p".to_string()),
            match right_id {
                Some(id) => Value::Int(id),
                None => Value::Null,
            },
            match right_id {
                Some(_) => Value::Int(left_id),
                None => Value::Null,
            },
        ],
    }
}

#[test]
fn pair_with_match_decodes_both_sides() {
    let (left, right) = pair_entities();
    let row = pair_row(1, Some(101));
    let (lm, rm) = decode_pair(&left, &right, &row).unwrap();
    assert_eq!(lm.values[0], Value::Int(1));
    let rm = rm.expect("matched row decodes a right side");
    assert_eq!(rm.values, vec![Value::Int(101), Value::Int(1)]);
}

#[test]
fn pair_unmatched_left_row_has_absent_right_side() {
    let (left, right) = pair_entities();
    let row = pair_row(2, None);
    let (lm, rm) = decode_pair(&left, &right, &row).unwrap();
    assert_eq!(lm.values[0], Value::Int(2));
    assert!(rm.is_none());
}

#[test]
fn pairs_keep_row_order() {
    // Rows arrive in the statement's ORDER BY order; the decoded pairs
    // keep exactly that order, unmatched rows with an absent right side.
    let (left, right) = pair_entities();
    let rows = vec![pair_row(1, None), pair_row(2, Some(101)), pair_row(3, None)];
    let pairs = decode_pairs(&left, &right, &rows).unwrap();
    assert_eq!(pairs.len(), 3);
    assert_eq!(pairs[0].0.values[0], Value::Int(1));
    assert!(pairs[0].1.is_none());
    assert_eq!(pairs[1].0.values[0], Value::Int(2));
    assert!(pairs[1].1.is_some());
    assert_eq!(pairs[2].0.values[0], Value::Int(3));
    assert!(pairs[2].1.is_none());
}

#[test]
fn rows_decode_in_order() {
    let entity = item();
    let m = item_model();
    let row = |id: i64| Row {
        columns: vec![
            "id".to_string(),
            "name".to_string(),
            "live".to_string(),
            "payload".to_string(),
            "note".to_string(),
        ],
        values: vec![
            Value::Int(id),
            m.values[1].clone(),
            m.values[2].clone(),
            m.values[3].clone(),
            m.values[4].clone(),
        ],
    };
    let rows = vec![row(3), row(1), row(2)];
    let ms = decode_rows(&entity, &rows).unwrap();
    assert_eq!(ms.len(), 3);
    assert_eq!(ms[0].values[0], Value::Int(3));
    assert_eq!(ms[1].values[0], Value::Int(1));
    assert_eq!(ms[2].values[0], Value::Int(2));
}
