use postrust_graphql::catalog::{Column, Table};
use postrust_graphql::input::filter::IntFilterInput;
use postrust_graphql::input::mutation::InputValue;
use postrust_graphql::json::{Json, Number};
use postrust_graphql::plan::MutatePlan;
use postrust_graphql::resolver::mutation::{
    build_delete_plan, build_insert_plan, build_update_plan, input_value_to_json, DeleteArgs,
    InsertArgs, OnConflictArgs, UpdateArgs,
};
use postrust_graphql::resolver::query::{FieldFilter, TableFilter};

fn column(name: &str, data_type: &str, nominal_type: &str, nullable: bool, position: i32) -> Column {
    Column {
        name: name.into(),
        description: None,
        nullable,
        data_type: data_type.into(),
        nominal_type: nominal_type.into(),
        max_len: None,
        default: if name == "id" {
            Some("nextval('users_id_seq')".into())
        } else {
            None
        },
        enum_values: vec![],
        is_pk: name == "id",
        position,
        always_generated: false,
        domain_type: None,
    }
}

fn create_test_table() -> Table {
    Table {
        schema: "public".into(),
        name: "users".into(),
        description: None,
        is_view: false,
        insertable: true,
        updatable: true,
        deletable: true,
        pk_cols: vec!["id".into()],
        unique_constraints: vec![],
        columns: vec![
            column("id", "integer", "int4", false, 1),
            column("name", "text", "text", false, 2),
            column("email", "text", "text", true, 3),
        ],
        computed_columns: vec![],
        is_partitioned: false,
    }
}

// ============================================================================
// InsertArgs Tests
// ============================================================================

#[test]
fn test_insert_args_default() {
    let args = InsertArgs::new();
    assert!(!args.has_objects());
    assert_eq!(args.object_count(), 0);
}

#[test]
fn test_insert_args_with_object() {
    let mut object = Vec::new();
    object.push(("name".to_string(), InputValue::String("Alice".to_string())));
    object.push(("email".to_string(), InputValue::String("alice@example.com".to_string())));

    let args = InsertArgs::new().with_object(object);
    assert!(args.has_objects());
    assert_eq!(args.object_count(), 1);
}

#[test]
fn test_insert_args_with_multiple_objects() {
    let obj1: Vec<(String, InputValue)> =
        [("name".to_string(), InputValue::String("Alice".to_string()))]
            .into_iter()
            .collect();
    let obj2: Vec<(String, InputValue)> =
        [("name".to_string(), InputValue::String("Bob".to_string()))]
            .into_iter()
            .collect();

    let args = InsertArgs::new().with_objects(vec![obj1, obj2]);
    assert_eq!(args.object_count(), 2);
}

#[test]
fn rows_are_added_to_those_there_are() {
    let row = |name: &str| vec![("name".to_string(), InputValue::String(name.to_string()))];
    let args = InsertArgs::new()
        .with_object(row("a"))
        .with_returning(vec!["id".to_string()])
        .with_objects(vec![row("b"), row("c")]);
    let names: Vec<String> =
        args.objects.iter().map(|object| format!("{:?}", object[0].1)).collect();
    assert_eq!(names, vec!["String(\"a\")", "String(\"b\")", "String(\"c\")"]);
    assert!(args.on_conflict.is_none());
    assert_eq!(args.returning, vec!["id".to_string()]);
}

#[test]
fn test_insert_args_column_names() {
    let object: Vec<(String, InputValue)> = [
        ("name".to_string(), InputValue::String("Alice".to_string())),
        (
            "email".to_string(),
            InputValue::String("alice@example.com".to_string()),
        ),
    ]
    .into_iter()
    .collect();

    let args = InsertArgs::new().with_object(object);
    let columns = args.column_names();
    assert_eq!(columns.len(), 2);
    assert!(columns.contains(&"name".to_string()));
    assert!(columns.contains(&"email".to_string()));
}

#[test]
fn test_insert_args_to_json_bytes() {
    let object: Vec<(String, InputValue)> =
        [("name".to_string(), InputValue::String("Alice".to_string()))]
            .into_iter()
            .collect();

    let args = InsertArgs::new().with_object(object);
    let bytes = args.to_json_bytes().unwrap();
    let json: serde_json::Value = serde_json::from_slice(&bytes).unwrap();
    assert_eq!(json["name"], "Alice");
}

#[test]
fn test_insert_args_with_returning() {
    let args = InsertArgs::new().with_returning(vec!["id".to_string(), "name".to_string()]);
    assert_eq!(args.returning.len(), 2);
}

#[test]
fn test_insert_args_with_on_conflict() {
    let on_conflict = OnConflictArgs::new(vec!["email".to_string()])
        .with_update_columns(vec!["name".to_string()]);

    let args = InsertArgs::new().with_on_conflict(on_conflict);
    assert!(args.on_conflict.is_some());
}

// ============================================================================
// OnConflictArgs Tests
// ============================================================================

#[test]
fn test_on_conflict_args() {
    let args = OnConflictArgs::new(vec!["id".to_string()])
        .with_update_columns(vec!["name".to_string(), "email".to_string()]);

    assert_eq!(args.constraint, vec!["id".to_string()]);
    assert_eq!(args.update_columns.len(), 2);
}

// ============================================================================
// UpdateArgs Tests
// ============================================================================

#[test]
fn test_update_args_default() {
    let args = UpdateArgs::new();
    assert!(!args.has_filter());
    assert!(!args.has_set());
}

#[test]
fn test_update_args_with_set() {
    let set: Vec<(String, InputValue)> = [(
        "name".to_string(),
        InputValue::String("Updated".to_string()),
    )]
    .into_iter()
    .collect();

    let args = UpdateArgs::new().with_set(set);
    assert!(args.has_set());
    assert_eq!(args.column_names().len(), 1);
}

#[test]
fn test_update_args_with_filter() {
    let filter = TableFilter::new().with_field(
        "id",
        FieldFilter::integer(IntFilterInput {
            eq: Some(1),
            ..Default::default()
        }),
    );

    let args = UpdateArgs::new().with_filter(filter);
    assert!(args.has_filter());
}

#[test]
fn test_update_args_to_json_bytes() {
    let set: Vec<(String, InputValue)> = [
        (
            "name".to_string(),
            InputValue::String("Updated".to_string()),
        ),
        ("active".to_string(), InputValue::Bool(true)),
    ]
    .into_iter()
    .collect();

    let args = UpdateArgs::new().with_set(set);
    let bytes = args.to_json_bytes().unwrap();
    let json: serde_json::Value = serde_json::from_slice(&bytes).unwrap();
    assert_eq!(json["name"], "Updated");
    assert_eq!(json["active"], true);
}

// ============================================================================
// DeleteArgs Tests
// ============================================================================

#[test]
fn test_delete_args_default() {
    let args = DeleteArgs::new();
    assert!(!args.has_filter());
}

#[test]
fn test_delete_args_with_filter() {
    let filter = TableFilter::new().with_field(
        "id",
        FieldFilter::integer(IntFilterInput {
            eq: Some(1),
            ..Default::default()
        }),
    );

    let args = DeleteArgs::new().with_filter(filter);
    assert!(args.has_filter());
}

#[test]
fn test_delete_args_with_returning() {
    let args = DeleteArgs::new().with_returning(vec!["id".to_string(), "name".to_string()]);
    assert_eq!(args.returning.len(), 2);
}

// ============================================================================
// InputValue to JSON Tests
// ============================================================================

#[test]
fn test_input_value_to_json_null() {
    let json = input_value_to_json(&InputValue::Null);
    assert!(json.is_null());
}

#[test]
fn test_input_value_to_json_bool() {
    let json = input_value_to_json(&InputValue::Bool(true));
    assert_eq!(json, Json::Bool(true));
}

#[test]
fn test_input_value_to_json_int() {
    let json = input_value_to_json(&InputValue::Int(42));
    assert_eq!(json, Json::Number(Number::PosInt(42)));
}

#[test]
fn test_input_value_to_json_float() {
    let json = input_value_to_json(&InputValue::Float(Some(3.14f64.to_string())));
    assert_eq!(json, Json::Number(Number::Other("3.14".to_string())));
}

#[test]
fn test_input_value_to_json_string() {
    let json = input_value_to_json(&InputValue::String("hello".to_string()));
    assert_eq!(json, Json::String("hello".to_string()));
}

#[test]
fn test_input_value_to_json_array() {
    let arr = vec![InputValue::Int(1), InputValue::Int(2), InputValue::Int(3)];
    let json = input_value_to_json(&InputValue::Array(arr));
    assert_eq!(json, Json::Array(vec![
            Json::Number(Number::PosInt(1)),
            Json::Number(Number::PosInt(2)),
            Json::Number(Number::PosInt(3)),
        ]));
}

#[test]
fn test_input_value_to_json_object() {
    let obj: Vec<(String, InputValue)> = [
        ("name".to_string(), InputValue::String("test".to_string())),
        ("count".to_string(), InputValue::Int(5)),
    ]
    .into_iter()
    .collect();
    let json = input_value_to_json(&InputValue::Object(obj));
    assert_eq!(json.get("name"), Some(&Json::String("test".to_string())));
    assert_eq!(json.get("count"), Some(&Json::Number(Number::PosInt(5))));
}

// ============================================================================
// MutatePlan Building Tests
// ============================================================================

#[test]
fn test_build_insert_plan_basic() {
    let table = create_test_table();
    let object: Vec<(String, InputValue)> =
        [("name".to_string(), InputValue::String("Alice".to_string()))]
            .into_iter()
            .collect();

    let args = InsertArgs::new().with_object(object);
    let plan = build_insert_plan(&args, &table);

    match plan {
        MutatePlan::Insert {
            target,
            body,
            returning,
            ..
        } => {
            assert_eq!(target.name, "users");
            assert!(body.is_some());
            assert_eq!(returning, vec!["id".to_string()]);
        }
        _ => panic!("Expected Insert plan"),
    }
}

#[test]
fn test_build_insert_plan_with_returning() {
    let table = create_test_table();
    let object: Vec<(String, InputValue)> =
        [("name".to_string(), InputValue::String("Alice".to_string()))]
            .into_iter()
            .collect();

    let args = InsertArgs::new()
        .with_object(object)
        .with_returning(vec!["id".to_string(), "name".to_string()]);
    let plan = build_insert_plan(&args, &table);

    match plan {
        MutatePlan::Insert { returning, .. } => {
            assert_eq!(returning.len(), 2);
        }
        _ => panic!("Expected Insert plan"),
    }
}

#[test]
fn test_build_insert_plan_with_on_conflict() {
    let table = create_test_table();
    let object: Vec<(String, InputValue)> =
        [("name".to_string(), InputValue::String("Alice".to_string()))]
            .into_iter()
            .collect();

    let on_conflict = OnConflictArgs::new(vec!["id".to_string()]);
    let args = InsertArgs::new()
        .with_object(object)
        .with_on_conflict(on_conflict);
    let plan = build_insert_plan(&args, &table);

    match plan {
        MutatePlan::Insert { on_conflict, .. } => {
            assert!(on_conflict.is_some());
            let (_, cols) = on_conflict.unwrap();
            assert_eq!(cols, vec!["id".to_string()]);
        }
        _ => panic!("Expected Insert plan"),
    }
}

#[test]
fn test_build_update_plan_basic() {
    let table = create_test_table();
    let set: Vec<(String, InputValue)> = [(
        "name".to_string(),
        InputValue::String("Updated".to_string()),
    )]
    .into_iter()
    .collect();

    let filter = TableFilter::new().with_field(
        "id",
        FieldFilter::integer(IntFilterInput {
            eq: Some(1),
            ..Default::default()
        }),
    );

    let args = UpdateArgs::new().with_set(set).with_filter(filter);
    let plan = build_update_plan(&args, &table);

    match plan {
        MutatePlan::Update {
            target,
            body,
            where_clauses,
            ..
        } => {
            assert_eq!(target.name, "users");
            assert!(body.is_some());
            assert!(!where_clauses.is_empty());
        }
        _ => panic!("Expected Update plan"),
    }
}

#[test]
fn test_build_update_plan_with_returning() {
    let table = create_test_table();
    let set: Vec<(String, InputValue)> = [(
        "name".to_string(),
        InputValue::String("Updated".to_string()),
    )]
    .into_iter()
    .collect();

    let args = UpdateArgs::new()
        .with_set(set)
        .with_returning(vec!["id".to_string(), "name".to_string()]);
    let plan = build_update_plan(&args, &table);

    match plan {
        MutatePlan::Update { returning, .. } => {
            assert_eq!(returning.len(), 2);
        }
        _ => panic!("Expected Update plan"),
    }
}

#[test]
fn test_build_delete_plan_basic() {
    let table = create_test_table();
    let filter = TableFilter::new().with_field(
        "id",
        FieldFilter::integer(IntFilterInput {
            eq: Some(1),
            ..Default::default()
        }),
    );

    let args = DeleteArgs::new().with_filter(filter);
    let plan = build_delete_plan(&args, &table);

    match plan {
        MutatePlan::Delete {
            target,
            where_clauses,
            returning,
        } => {
            assert_eq!(target.name, "users");
            assert!(!where_clauses.is_empty());
            assert_eq!(returning, vec!["id".to_string()]);
        }
        _ => panic!("Expected Delete plan"),
    }
}

#[test]
fn test_build_delete_plan_with_returning() {
    let table = create_test_table();
    let args = DeleteArgs::new().with_returning(vec![
        "id".to_string(),
        "name".to_string(),
        "email".to_string(),
    ]);
    let plan = build_delete_plan(&args, &table);

    match plan {
        MutatePlan::Delete { returning, .. } => {
            assert_eq!(returning.len(), 3);
        }
        _ => panic!("Expected Delete plan"),
    }
}

#[test]
fn test_build_delete_plan_no_filter() {
    let table = create_test_table();
    let args = DeleteArgs::new();
    let plan = build_delete_plan(&args, &table);

    match plan {
        MutatePlan::Delete { where_clauses, .. } => {
            assert!(where_clauses.is_empty());
        }
        _ => panic!("Expected Delete plan"),
    }
}
